use vstd::prelude::*;

verus! {

/// Owner read bit of a POSIX mode bitmask.
pub const MODE_OWNER_READ: u16 = 0o400;

/// Owner write bit of a POSIX mode bitmask.
pub const MODE_OWNER_WRITE: u16 = 0o200;

/// Owner execute bit of a POSIX mode bitmask.
pub const MODE_OWNER_EXEC: u16 = 0o100;

/// Group read bit of a POSIX mode bitmask.
pub const MODE_GROUP_READ: u16 = 0o40;

/// Group write bit of a POSIX mode bitmask.
pub const MODE_GROUP_WRITE: u16 = 0o20;

/// Group execute bit of a POSIX mode bitmask.
pub const MODE_GROUP_EXEC: u16 = 0o10;

/// Other read bit of a POSIX mode bitmask.
pub const MODE_OTHER_READ: u16 = 0o4;

/// Other write bit of a POSIX mode bitmask.
pub const MODE_OTHER_WRITE: u16 = 0o2;

/// Other execute bit of a POSIX mode bitmask.
pub const MODE_OTHER_EXEC: u16 = 0o1;

/// The three characters of one permission triplet: `r`, `w` and `x` each
/// stand in their fixed position when the corresponding bit is set, `-`
/// otherwise, giving the eight groups `---` through `rwx`.
pub open spec fn rwx_chars(r: bool, w: bool, x: bool) -> Seq<char> {
    seq![
        if r { 'r' } else { '-' },
        if w { 'w' } else { '-' },
        if x { 'x' } else { '-' },
    ]
}

/// The 3-character group for one actor, keyed by whether each of the given
/// read, write and execute masks selects a non-zero part of `mode`.
pub open spec fn triplet_spec(mode: u16, read: u16, write: u16, execute: u16) -> Seq<char> {
    rwx_chars(mode & read != 0, mode & write != 0, mode & execute != 0)
}

/// The 9-character symbolic permission string for `mode`: the owner, group
/// and other triplets concatenated in that order with no separator.
pub open spec fn perm_string_spec(mode: u16) -> Seq<char> {
    triplet_spec(mode, MODE_OWNER_READ, MODE_OWNER_WRITE, MODE_OWNER_EXEC)
        + triplet_spec(mode, MODE_GROUP_READ, MODE_GROUP_WRITE, MODE_GROUP_EXEC)
        + triplet_spec(mode, MODE_OTHER_READ, MODE_OTHER_WRITE, MODE_OTHER_EXEC)
}

/// Computes the 3-character group for one actor triplet of `mode`, testing
/// the given read, write and execute masks independently.
pub fn get_permission_string(mode: u16, read: u16, write: u16, execute: u16) -> (r: String)
    ensures
        r@ == triplet_spec(mode, read, write, execute),
        r@.len() == 3,
{
    proof {
        reveal_strlit("r");
        reveal_strlit("w");
        reveal_strlit("x");
        reveal_strlit("-");
    }
    let mut s = String::new();
    s.append(if mode & read != 0 { "r" } else { "-" });
    s.append(if mode & write != 0 { "w" } else { "-" });
    s.append(if mode & execute != 0 { "x" } else { "-" });
    assert(s@ =~= triplet_spec(mode, read, write, execute));
    s
}

/// Converts a raw file-mode bitmask into its 9-character symbolic
/// permission string; only the nine low permission bits of `mode` matter.
pub fn parse_permissions(mode: u16) -> (r: String)
    ensures
        r@ == perm_string_spec(mode),
        r@.len() == 9,
{
    let mut s = get_permission_string(mode, MODE_OWNER_READ, MODE_OWNER_WRITE, MODE_OWNER_EXEC);
    let group = get_permission_string(mode, MODE_GROUP_READ, MODE_GROUP_WRITE, MODE_GROUP_EXEC);
    let other = get_permission_string(mode, MODE_OTHER_READ, MODE_OTHER_WRITE, MODE_OTHER_EXEC);
    s.append(group.as_str());
    s.append(other.as_str());
    s
}

/// The permission codec is pure and hides no state: any two runs over
/// the same mode yield the same string, each being pinned to
/// `perm_string_spec` of that mode by the codec's contract.
pub proof fn lemma_permission_codec_deterministic(mode: u16, s1: Seq<char>, s2: Seq<char>)
    requires
        s1 == perm_string_spec(mode),
        s2 == perm_string_spec(mode),
    ensures
        s1 == s2,
{
}

/// The permission string is a pure function of the nine low bits of the
/// mode alone: two modes that agree on those bits (whatever their higher
/// bits, such as file-type bits) decode to the same string.
pub proof fn lemma_perm_string_low_bits_only(m1: u16, m2: u16)
    requires
        m1 & 0o777 == m2 & 0o777,
    ensures
        perm_string_spec(m1) == perm_string_spec(m2),
{
    assert((m1 & 0o400 != 0) == (m2 & 0o400 != 0) && (m1 & 0o200 != 0) == (m2 & 0o200 != 0)
        && (m1 & 0o100 != 0) == (m2 & 0o100 != 0) && (m1 & 0o40 != 0) == (m2 & 0o40 != 0) && (m1
        & 0o20 != 0) == (m2 & 0o20 != 0) && (m1 & 0o10 != 0) == (m2 & 0o10 != 0) && (m1 & 0o4 != 0)
        == (m2 & 0o4 != 0) && (m1 & 0o2 != 0) == (m2 & 0o2 != 0) && (m1 & 0o1 != 0) == (m2 & 0o1
        != 0)) by (bit_vector)
        requires
            m1 & 0o777 == m2 & 0o777,
    ;
}

} // verus!

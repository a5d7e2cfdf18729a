use vstd::prelude::*;
use crate::decimal::{append_digit, digit_char};
use crate::perms::{parse_permissions, perm_string_spec};
use crate::size::{format_size, size_label};

verus! {

/// The characters after the last occurrence of `sep` in `p` (all of `p`
/// when `sep` does not occur; empty when `p` ends with `sep`).
pub open spec fn tail_after(p: Seq<char>, sep: char) -> Seq<char>
    decreases p.len(),
{
    if p.len() == 0 {
        Seq::empty()
    } else if p.last() == sep {
        Seq::empty()
    } else {
        tail_after(p.drop_last(), sep).push(p.last())
    }
}

/// Extracts the characters of `s` after its last occurrence of `sep`.
/// With `'/'` this yields the basename of a path; with `'.'`, a file
/// name's extension candidate.
pub fn tail_after_char(s: &str, sep: char) -> (r: String)
    ensures
        r@ == tail_after(s@, sep),
{
    let n = s.unicode_len();
    let mut start: usize = 0;
    let mut j: usize = 0;
    while j < n
        invariant
            start <= j <= n,
            n == s@.len(),
            tail_after(s@.subrange(0, j as int), sep) == s@.subrange(start as int, j as int),
        decreases n - j,
    {
        let c = s.get_char(j);
        proof {
            assert(s@.subrange(0, j + 1).drop_last() =~= s@.subrange(0, j as int));
            assert(s@.subrange(0, j + 1).last() == c);
            if c != sep {
                assert(s@.subrange(start as int, j as int).push(c) =~= s@.subrange(
                    start as int,
                    j + 1,
                ));
            } else {
                assert(s@.subrange(j + 1, j + 1) =~= Seq::<char>::empty());
            }
        }
        if c == sep {
            start = j + 1;
        }
        j = j + 1;
    }
    proof {
        assert(s@.subrange(0, n as int) =~= s@);
    }
    let r = String::from_str(s.substring_char(start, n));
    r
}

/// A count rendered as exactly two decimal digits, zero padded: the tens
/// and ones digits of `n` (higher digits are dropped).
pub open spec fn two_dec(n: nat) -> Seq<char> {
    seq![digit_char((n / 10) % 10), digit_char(n % 10)]
}

/// The fixed `MM/DD/YY HH:MM` timestamp layout, each field zero padded to
/// two digits.
pub open spec fn timestamp_spec(month: nat, day: nat, yy: nat, hour: nat, minute: nat) -> Seq<
    char,
> {
    two_dec(month) + seq!['/'] + two_dec(day) + seq!['/'] + two_dec(yy) + seq![' '] + two_dec(hour)
        + seq![':'] + two_dec(minute)
}

/// Appends the two-digit zero-padded rendering of `n` to `s`.
fn append_two_dec(s: &mut String, n: u64)
    ensures
        final(s)@ == old(s)@ + two_dec(n as nat),
{
    append_digit(s, (n / 10) % 10);
    append_digit(s, n % 10);
    assert(s@ =~= old(s)@ + two_dec(n as nat));
}

/// Renders local-time fields in the fixed `MM/DD/YY HH:MM` layout.
pub fn format_timestamp(month: u32, day: u32, yy: u32, hour: u32, minute: u32) -> (r: String)
    ensures
        r@ == timestamp_spec(month as nat, day as nat, yy as nat, hour as nat, minute as nat),
{
    proof {
        reveal_strlit("/");
        reveal_strlit(" ");
        reveal_strlit(":");
    }
    let mut s = String::new();
    append_two_dec(&mut s, month as u64);
    s.append("/");
    append_two_dec(&mut s, day as u64);
    s.append("/");
    append_two_dec(&mut s, yy as u64);
    s.append(" ");
    append_two_dec(&mut s, hour as u64);
    s.append(":");
    append_two_dec(&mut s, minute as u64);
    assert(s@ =~= timestamp_spec(
        month as nat,
        day as nat,
        yy as nat,
        hour as nat,
        minute as nat,
    ));
    s
}

/// Relies on chrono's `TimeZone::timestamp_opt` on `Local` together with
/// the `Datelike`/`Timelike` accessors of the resulting date-time: a
/// count of seconds since the Unix epoch becomes the plain fields
/// (year, month, day, hour, minute) of that moment in the machine's
/// local time zone. The accessors are documented to range month over
/// 1 to 12, day over 1 to 31, hour over 0 to 23 and minute over 0 to 59.
/// A count outside chrono's representable range yields nothing; an
/// ambiguous civil time maps to its earlier reading.
#[verifier::external_body]
fn local_fields_from_epoch(secs: i64) -> (r: Option<(i32, u32, u32, u32, u32)>)
    ensures
        r matches Some(f) ==> 1 <= f.1 <= 12 && 1 <= f.2 <= 31 && f.3 <= 23 && f.4 <= 59,
{
    let t = match chrono::TimeZone::timestamp_opt(&chrono::Local, secs, 0) {
        chrono::LocalResult::Single(t) => t,
        chrono::LocalResult::Ambiguous(t, _) => t,
        chrono::LocalResult::None => return None,
    };
    Some((
        chrono::Datelike::year(&t),
        chrono::Datelike::month(&t),
        chrono::Datelike::day(&t),
        chrono::Timelike::hour(&t),
        chrono::Timelike::minute(&t),
    ))
}

/// Holds when `s` is a well-formed `MM/DD/YY HH:MM` rendering of some
/// moment: each field lies in its calendar range and the layout is exact.
pub open spec fn is_local_timestamp(s: Seq<char>) -> bool {
    exists|mo: nat, da: nat, yy: nat, ho: nat, mi: nat|
        1 <= mo <= 12 && 1 <= da <= 31 && yy <= 99 && ho <= 23 && mi <= 59 && s == timestamp_spec(
            mo,
            da,
            yy,
            ho,
            mi,
        )
}

/// The `MM/DD/YY HH:MM` rendering of a moment given as seconds since the
/// Unix epoch, in the machine's local time zone (the two-digit year is
/// the calendar year modulo 100). Yields nothing only when chrono cannot
/// represent the moment.
pub fn format_local_timestamp(epoch_secs: i64) -> (r: Option<String>)
    ensures
        r matches Some(s) ==> is_local_timestamp(s@),
{
    match local_fields_from_epoch(epoch_secs) {
        None => None,
        Some(f) => {
            let (year, month, day, hour, minute) = f;
            let m: i32 = year % 100;
            let yy: u32 = if m < 0 {
                (m + 100) as u32
            } else {
                m as u32
            };
            let s = format_timestamp(month, day, yy, hour, minute);
            proof {
                assert(is_local_timestamp(s@)) by {
                    assert(s@ == timestamp_spec(
                        month as nat,
                        day as nat,
                        yy as nat,
                        hour as nat,
                        minute as nat,
                    ));
                }
            }
            Some(s)
        },
    }
}

/// The fixed-layout metadata summary block: a header line naming the
/// file, then its size label, its symbolic permissions and its
/// modification timestamp, then the footer line; nothing follows the
/// footer, so content printed after the block needs no separator.
pub open spec fn report_block_spec(
    name: Seq<char>,
    label: Seq<char>,
    perms: Seq<char>,
    ts: Seq<char>,
) -> Seq<char> {
    "########## File: "@ + name + " ##########\n"@ + "Size: "@ + label + "\n"@ + "Permissions: "@
        + perms + "\n"@ + "Date Modified: "@ + ts + "\n"@ + "################################\n"@
}

/// Composes the metadata report block for a file called `name` with the
/// given size in bytes, raw permission mode and rendered timestamp.
pub fn build_report_block(name: &str, size: u64, mode: u16, ts: &str) -> (r: String)
    ensures
        r@ == report_block_spec(name@, size_label(size as nat), perm_string_spec(mode), ts@),
{
    let mut s = String::new();
    s.append("########## File: ");
    s.append(name);
    s.append(" ##########\n");
    s.append("Size: ");
    let label = format_size(size);
    s.append(label.as_str());
    s.append("\n");
    s.append("Permissions: ");
    let pm = parse_permissions(mode);
    s.append(pm.as_str());
    s.append("\n");
    s.append("Date Modified: ");
    s.append(ts);
    s.append("\n");
    s.append("################################\n");
    assert(s@ =~= report_block_spec(name@, size_label(size as nat), perm_string_spec(mode), ts@));
    s
}

} // verus!

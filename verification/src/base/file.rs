use vstd::prelude::*;

use crate::base::string::spec_lower_hex8;
use crate::base::string::format_hex8_lower;
use crate::error::Error;

verus! {

// ---------------------------------------------------------------------------
// Lowercase hex names
// ---------------------------------------------------------------------------
/// Whether `c` is a lowercase hex digit (`0-9` or `a-f`).
pub open spec fn is_lower_hex_digit(c: char) -> bool {
    (48 <= c as int && c as int <= 57)  // '0' ..= '9'
     || (97 <= c as int && c as int <= 102)  // 'a' ..= 'f'

}

/// Numeric value of a lowercase hex digit.
pub open spec fn lower_hex_val(c: char) -> int {
    if 48 <= c as int && c as int <= 57 {
        c as int - 48
    } else {
        c as int - 87
    }
}

/// Whether every character of `s` in `[from, to)` is a lowercase hex digit.
pub open spec fn all_lower_hex(s: Seq<char>, from: int, to: int) -> bool {
    forall|i: int| from <= i < to ==> is_lower_hex_digit(#[trigger] s[i])
}

/// Value of the eight hex digits of `s` starting at `from`.
pub open spec fn spec_hex8_val_at(s: Seq<char>, from: int) -> int {
    ((((((lower_hex_val(s[from]) * 16 + lower_hex_val(s[from + 1])) * 16 + lower_hex_val(
        s[from + 2],
    )) * 16 + lower_hex_val(s[from + 3])) * 16 + lower_hex_val(s[from + 4])) * 16 + lower_hex_val(
        s[from + 5],
    )) * 16 + lower_hex_val(s[from + 6])) * 16 + lower_hex_val(s[from + 7])
}

/// The value of a lowercase hex digit, or `None` for any other character.
fn hex_digit_val(c: char) -> (r: Option<u8>)
    ensures
        (r is Some) == is_lower_hex_digit(c),
        r matches Some(v) ==> v as int == lower_hex_val(c) && v < 16,
{
    let u = c as u32;
    if 48 <= u && u <= 57 {
        Some((u - 48) as u8)
    } else if 97 <= u && u <= 102 {
        Some((u - 87) as u8)
    } else {
        None
    }
}

/// Parse eight lowercase hex digits of `name` starting at `from`.
fn parse_hex8_at(name: &str, from: usize) -> (r: Option<u64>)
    requires
        from + 8 <= usize::MAX,
        from + 8 <= name@.len(),
    ensures
        (r is Some) == all_lower_hex(name@, from as int, from as int + 8),
        r matches Some(v) ==> v == spec_hex8_val_at(name@, from as int) && v < 0x100000000,
{
    let d0 = hex_digit_val(name.get_char(from));
    let d1 = hex_digit_val(name.get_char(from + 1));
    let d2 = hex_digit_val(name.get_char(from + 2));
    let d3 = hex_digit_val(name.get_char(from + 3));
    let d4 = hex_digit_val(name.get_char(from + 4));
    let d5 = hex_digit_val(name.get_char(from + 5));
    let d6 = hex_digit_val(name.get_char(from + 6));
    let d7 = hex_digit_val(name.get_char(from + 7));
    match (d0, d1, d2, d3, d4, d5, d6, d7) {
        (
            Some(v0),
            Some(v1),
            Some(v2),
            Some(v3),
            Some(v4),
            Some(v5),
            Some(v6),
            Some(v7),
        ) => {
            let v: u64 = ((((((v0 as u64 * 16 + v1 as u64) * 16 + v2 as u64) * 16 + v3 as u64) * 16
                + v4 as u64) * 16 + v5 as u64) * 16 + v6 as u64) * 16 + v7 as u64;
            proof {
                assert forall|i: int| from <= i < from + 8 implies is_lower_hex_digit(
                    #[trigger] name@[i],
                ) by {
                    if i == from {
                    } else if i == from + 1 {
                    } else if i == from + 2 {
                    } else if i == from + 3 {
                    } else if i == from + 4 {
                    } else if i == from + 5 {
                    } else if i == from + 6 {
                    } else {
                        assert(i == from + 7);
                    }
                }
            }
            Some(v)
        },
        _ => None,
    }
}

// ---------------------------------------------------------------------------
// Path decomposition
// ---------------------------------------------------------------------------
/// `s` with every trailing `/` removed.
pub open spec fn spec_strip_trailing_slashes(s: Seq<char>) -> Seq<char>
    decreases s.len(),
{
    if s.len() > 0 && s.last() == '/' {
        spec_strip_trailing_slashes(s.drop_last())
    } else {
        s
    }
}

/// Start of the final path component of `t` (one past the last `/`),
/// assuming `t` has no trailing slash.
pub open spec fn spec_base_start(t: Seq<char>) -> int
    decreases t.len(),
{
    if t.len() == 0 {
        0
    } else if t.last() == '/' {
        t.len() as int
    } else {
        spec_base_start(t.drop_last())
    }
}

/// The final component of a path: what follows the last `/` once trailing
/// slashes are stripped.
pub open spec fn spec_base_of(s: Seq<char>) -> Seq<char> {
    let t = spec_strip_trailing_slashes(s);
    t.subrange(spec_base_start(t), t.len() as int)
}

/// Whether a path has a usable base name: a non-empty final component that
/// is neither `.` nor `..`.
pub open spec fn spec_path_base_ok(s: Seq<char>) -> bool {
    let c = spec_base_of(s);
    c.len() > 0 && !(c.len() == 1 && c[0] == '.') && !(c.len() == 2 && c[0] == '.' && c[1] == '.')
}

/// Return the base name of a path, or an `InvalidPath` error when the path
/// has none (it is empty, all slashes, or ends in `.` or `..`).
pub fn path_base(path: &str) -> (r: Result<String, Error>)
    ensures
        (r is Ok) == spec_path_base_ok(path@),
        r matches Ok(b) ==> b@ == spec_base_of(path@),
        r matches Err(e) ==> e is InvalidPath,
{
    let n = path.unicode_len();
    proof {
        assert(path@.take(n as int) =~= path@);
    }
    let mut end: usize = n;
    while end > 0 && path.get_char(end - 1) == '/'
        invariant
            end <= n,
            n == path@.len(),
            spec_strip_trailing_slashes(path@) == spec_strip_trailing_slashes(
                path@.take(end as int),
            ),
        decreases end,
    {
        proof {
            assert(path@.take(end as int).drop_last() =~= path@.take(end - 1));
        }
        end = end - 1;
    }
    proof {
        assert(spec_strip_trailing_slashes(path@.take(end as int)) =~= path@.take(end as int));
    }
    let ghost t = path@.take(end as int);
    let mut start: usize = end;
    while start > 0 && path.get_char(start - 1) != '/'
        invariant
            start <= end <= n,
            n == path@.len(),
            t == path@.take(end as int),
            spec_base_start(t) == spec_base_start(path@.take(start as int)),
            forall|i: int| start <= i < end ==> #[trigger] path@[i] != '/',
        decreases start,
    {
        proof {
            assert(path@.take(start as int).drop_last() =~= path@.take(start - 1));
        }
        start = start - 1;
    }
    proof {
        if start > 0 {
            assert(path@.take(start as int).last() == path@[start - 1]);
        }
        assert(spec_base_start(t) == start);
        assert(spec_base_of(path@) =~= t.subrange(start as int, end as int));
        assert(t.subrange(start as int, end as int) =~= path@.subrange(
            start as int,
            end as int,
        ));
    }
    let len = end - start;
    if len == 0 {
        let mut msg = String::from_str("invalid path ");
        msg.append(path);
        return Err(Error::InvalidPath(msg));
    }
    let comp = path.substring_char(start, end);
    if len == 1 && comp.get_char(0) == '.' {
        let mut msg = String::from_str("invalid path ");
        msg.append(path);
        return Err(Error::InvalidPath(msg));
    }
    if len == 2 && comp.get_char(0) == '.' && comp.get_char(1) == '.' {
        let mut msg = String::from_str("invalid path ");
        msg.append(path);
        return Err(Error::InvalidPath(msg));
    }
    Ok(String::from_str(comp))
}

/// The directory part of a path: everything before the final component.
/// `None` for an empty path or the filesystem root; `Some("")` for a bare
/// name; `Some("/")` when the parent is the root.
pub open spec fn spec_parent_dir(s: Seq<char>) -> Option<Seq<char>> {
    let t = spec_strip_trailing_slashes(s);
    if t.len() == 0 {
        Option::None
    } else {
        let k = spec_base_start(t);
        if k == 0 {
            Option::Some(Seq::empty())
        } else {
            let p = spec_strip_trailing_slashes(t.subrange(0, k));
            if p.len() == 0 {
                Option::Some(seq!['/'])
            } else {
                Option::Some(p)
            }
        }
    }
}

/// Return the parent directory of a path, as `std::path::Path::parent`
/// renders it.
pub fn parent_dir(path: &str) -> (r: Option<String>)
    ensures
        (r is Some) == (spec_parent_dir(path@) is Some),
        r matches Some(p) ==> spec_parent_dir(path@) matches Some(q) && p@ == q,
{
    let n = path.unicode_len();
    proof {
        assert(path@.take(n as int) =~= path@);
    }
    let mut end: usize = n;
    while end > 0 && path.get_char(end - 1) == '/'
        invariant
            end <= n,
            n == path@.len(),
            spec_strip_trailing_slashes(path@) == spec_strip_trailing_slashes(
                path@.take(end as int),
            ),
        decreases end,
    {
        proof {
            assert(path@.take(end as int).drop_last() =~= path@.take(end - 1));
        }
        end = end - 1;
    }
    proof {
        assert(spec_strip_trailing_slashes(path@.take(end as int)) =~= path@.take(end as int));
    }
    let ghost t = path@.take(end as int);
    if end == 0 {
        return None;
    }
    let mut start: usize = end;
    while start > 0 && path.get_char(start - 1) != '/'
        invariant
            start <= end <= n,
            n == path@.len(),
            t == path@.take(end as int),
            spec_base_start(t) == spec_base_start(path@.take(start as int)),
        decreases start,
    {
        proof {
            assert(path@.take(start as int).drop_last() =~= path@.take(start - 1));
        }
        start = start - 1;
    }
    proof {
        if start > 0 {
            assert(path@.take(start as int).last() == path@[start - 1]);
        }
        assert(spec_base_start(t) == start);
    }
    if start == 0 {
        return Some(String::new());
    }
    proof {
        assert(t.subrange(0, start as int) =~= path@.take(start as int));
    }
    let mut pend: usize = start;
    while pend > 0 && path.get_char(pend - 1) == '/'
        invariant
            pend <= start,
            n == path@.len(),
            start <= n,
            spec_strip_trailing_slashes(path@.take(start as int))
                == spec_strip_trailing_slashes(path@.take(pend as int)),
        decreases pend,
    {
        proof {
            assert(path@.take(pend as int).drop_last() =~= path@.take(pend - 1));
        }
        pend = pend - 1;
    }
    proof {
        assert(spec_strip_trailing_slashes(path@.take(pend as int)) =~= path@.take(pend as int));
    }
    if pend == 0 {
        proof {
            reveal_strlit("/");
        }
        return Some(String::from_str("/"));
    }
    let p = path.substring_char(0, pend);
    proof {
        assert(p@ =~= path@.take(pend as int));
    }
    Some(String::from_str(p))
}

// ---------------------------------------------------------------------------
// Joining path components
// ---------------------------------------------------------------------------
/// Join a directory and a (relative) component with a single `/`.
pub open spec fn spec_path_join(a: Seq<char>, b: Seq<char>) -> Seq<char> {
    if a.len() == 0 {
        b
    } else if a.last() == '/' {
        a + b
    } else {
        a + seq!['/'] + b
    }
}

/// Join a directory and a relative component with a single `/`.
pub fn path_join(a: &str, b: &str) -> (r: String)
    ensures
        r@ == spec_path_join(a@, b@),
{
    let n = a.unicode_len();
    let mut r = String::from_str(a);
    if n == 0 {
        let rb = String::from_str(b);
        proof {
            assert(rb@ =~= spec_path_join(a@, b@));
        }
        return rb;
    }
    if a.get_char(n - 1) != '/' {
        r.append("/");
        proof {
            reveal_strlit("/");
        }
    }
    r.append(b);
    proof {
        assert(r@ =~= spec_path_join(a@, b@));
    }
    r
}

// ---------------------------------------------------------------------------
// Shadow WAL, snapshot and WAL-segment names
// ---------------------------------------------------------------------------
/// A shadow WAL file name: eight lowercase hex digits followed by `.wal`.
pub open spec fn is_wal_name(s: Seq<char>) -> bool {
    s.len() == 12 && all_lower_hex(s, 0, 8) && s[8] == '.' && s[9] == 'w' && s[10] == 'a' && s[11]
        == 'l'
}

/// A snapshot object name: eight lowercase hex digits followed by
/// `.snapshot.lz4`.
pub open spec fn is_snapshot_name(s: Seq<char>) -> bool {
    s.len() == 21 && all_lower_hex(s, 0, 8) && s[8] == '.' && s[9] == 's' && s[10] == 'n' && s[11]
        == 'a' && s[12] == 'p' && s[13] == 's' && s[14] == 'h' && s[15] == 'o' && s[16] == 't'
        && s[17] == '.' && s[18] == 'l' && s[19] == 'z' && s[20] == '4'
}

/// A WAL segment object name: eight hex digits, `_`, eight hex digits,
/// then `.wal.lz4`.
pub open spec fn is_walsegment_name(s: Seq<char>) -> bool {
    s.len() == 25 && all_lower_hex(s, 0, 8) && s[8] == '_' && all_lower_hex(s, 9, 17) && s[17]
        == '.' && s[18] == 'w' && s[19] == 'a' && s[20] == 'l' && s[21] == '.' && s[22] == 'l'
        && s[23] == 'z' && s[24] == '4'
}

/// The shadow WAL file name of `index`: eight lowercase hex digits and
/// `.wal`.
pub open spec fn spec_wal_name(index: u32) -> Seq<char> {
    spec_lower_hex8(index) + seq!['.', 'w', 'a', 'l']
}

/// The snapshot object name of `index`.
pub open spec fn spec_snapshot_name(index: u32) -> Seq<char> {
    spec_lower_hex8(index) + seq!['.', 's', 'n', 'a', 'p', 's', 'h', 'o', 't', '.', 'l', 'z', '4']
}

/// The WAL segment object name of `(index, offset)`.
pub open spec fn spec_walsegment_name(index: u32, offset: u32) -> Seq<char> {
    spec_lower_hex8(index) + seq!['_'] + spec_lower_hex8(offset) + seq![
        '.',
        'w',
        'a',
        'l',
        '.',
        'l',
        'z',
        '4',
    ]
}

/// Parse a shadow WAL path; return the index encoded in its base name.
/// Fails with `InvalidPath` when the base name is not eight lowercase hex
/// digits followed by `.wal`.
pub fn parse_wal_path(path: &str) -> (r: Result<u64, Error>)
    ensures
        (r is Ok) == (spec_path_base_ok(path@) && is_wal_name(spec_base_of(path@))),
        r matches Ok(v) ==> v == spec_hex8_val_at(spec_base_of(path@), 0) && v < 0x100000000,
        r matches Err(e) ==> e is InvalidPath,
{
    let base = match path_base(path) {
        Ok(b) => b,
        Err(e) => {
            return Err(e);
        },
    };
    let name = base.as_str();
    let n = name.unicode_len();
    if n != 12 || name.get_char(8) != '.' || name.get_char(9) != 'w' || name.get_char(10) != 'a'
        || name.get_char(11) != 'l' {
        let mut msg = String::from_str("invalid wal path ");
        msg.append(path);
        return Err(Error::InvalidPath(msg));
    }
    match parse_hex8_at(name, 0) {
        Some(v) => Ok(v),
        None => {
            let mut msg = String::from_str("invalid wal path ");
            msg.append(path);
            Err(Error::InvalidPath(msg))
        },
    }
}

/// Format the shadow WAL file name of `index`: eight lowercase hex digits
/// and `.wal`, so `parse_wal_path` reads the index back.
pub fn format_wal_path(index: u64) -> (r: String)
    requires
        index <= u32::MAX,
    ensures
        r@ == spec_wal_name(index as u32),
{
    let mut s = format_hex8_lower(index as u32);
    s.append(".wal");
    proof {
        reveal_strlit(".wal");
        assert(s@ =~= spec_wal_name(index as u32));
    }
    s
}

/// Parse a snapshot object path; return the index encoded in its base name.
pub fn parse_snapshot_path(path: &str) -> (r: Result<u64, Error>)
    ensures
        (r is Ok) == (spec_path_base_ok(path@) && is_snapshot_name(spec_base_of(path@))),
        r matches Ok(v) ==> v == spec_hex8_val_at(spec_base_of(path@), 0) && v < 0x100000000,
        r matches Err(e) ==> e is InvalidPath,
{
    let base = match path_base(path) {
        Ok(b) => b,
        Err(e) => {
            return Err(e);
        },
    };
    let name = base.as_str();
    let n = name.unicode_len();
    if n != 21 || name.get_char(8) != '.' || name.get_char(9) != 's' || name.get_char(10) != 'n'
        || name.get_char(11) != 'a' || name.get_char(12) != 'p' || name.get_char(13) != 's'
        || name.get_char(14) != 'h' || name.get_char(15) != 'o' || name.get_char(16) != 't'
        || name.get_char(17) != '.' || name.get_char(18) != 'l' || name.get_char(19) != 'z'
        || name.get_char(20) != '4' {
        let mut msg = String::from_str("invalid snapshot path ");
        msg.append(path);
        return Err(Error::InvalidPath(msg));
    }
    match parse_hex8_at(name, 0) {
        Some(v) => Ok(v),
        None => {
            let mut msg = String::from_str("invalid snapshot path ");
            msg.append(path);
            Err(Error::InvalidPath(msg))
        },
    }
}

/// Format the snapshot object name of `index`.
pub fn format_snapshot_path(index: u64) -> (r: String)
    requires
        index <= u32::MAX,
    ensures
        r@ == spec_snapshot_name(index as u32),
{
    let mut s = format_hex8_lower(index as u32);
    s.append(".snapshot.lz4");
    proof {
        reveal_strlit(".snapshot.lz4");
        assert(s@ =~= spec_snapshot_name(index as u32));
    }
    s
}

/// Parse a WAL segment path; return the `(index, offset)` pair encoded in
/// its base name.
pub fn parse_wal_segment_path(path: &str) -> (r: Result<(u64, u64), Error>)
    ensures
        (r is Ok) == (spec_path_base_ok(path@) && is_walsegment_name(spec_base_of(path@))),
        r matches Ok(v) ==> v.0 == spec_hex8_val_at(spec_base_of(path@), 0) && v.1
            == spec_hex8_val_at(spec_base_of(path@), 9) && v.0 < 0x100000000 && v.1 < 0x100000000,
        r matches Err(e) ==> e is InvalidPath,
{
    let base = match path_base(path) {
        Ok(b) => b,
        Err(e) => {
            return Err(e);
        },
    };
    let name = base.as_str();
    let n = name.unicode_len();
    if n != 25 || name.get_char(8) != '_' || name.get_char(17) != '.' || name.get_char(18) != 'w'
        || name.get_char(19) != 'a' || name.get_char(20) != 'l' || name.get_char(21) != '.'
        || name.get_char(22) != 'l' || name.get_char(23) != 'z' || name.get_char(24) != '4' {
        let mut msg = String::from_str("invalid wal segment path ");
        msg.append(path);
        return Err(Error::InvalidPath(msg));
    }
    let index = match parse_hex8_at(name, 0) {
        Some(v) => v,
        None => {
            let mut msg = String::from_str("invalid wal segment path ");
            msg.append(path);
            return Err(Error::InvalidPath(msg));
        },
    };
    let offset = match parse_hex8_at(name, 9) {
        Some(v) => v,
        None => {
            let mut msg = String::from_str("invalid wal segment path ");
            msg.append(path);
            return Err(Error::InvalidPath(msg));
        },
    };
    Ok((index, offset))
}

/// Format the WAL segment object name of `(index, offset)`.
pub fn format_walsegment_path(index: u64, offset: u64) -> (r: String)
    requires
        index <= u32::MAX,
        offset <= u32::MAX,
    ensures
        r@ == spec_walsegment_name(index as u32, offset as u32),
{
    let mut s = format_hex8_lower(index as u32);
    s.append("_");
    let o = format_hex8_lower(offset as u32);
    s.append(o.as_str());
    s.append(".wal.lz4");
    proof {
        reveal_strlit("_");
        reveal_strlit(".wal.lz4");
        assert(s@ =~= spec_walsegment_name(index as u32, offset as u32));
    }
    s
}

// ---------------------------------------------------------------------------
// Meta-directory layout
// ---------------------------------------------------------------------------
/// The directory that holds every generation of a database.
pub open spec fn spec_generations_dir(meta_dir: Seq<char>) -> Seq<char> {
    spec_path_join(meta_dir, "generations"@)
}

/// The directory of one generation.
pub open spec fn spec_generation_dir(meta_dir: Seq<char>, generation: Seq<char>) -> Seq<char> {
    spec_path_join(spec_generations_dir(meta_dir), generation)
}

/// The directory that holds every generation of a database.
pub fn generations_dir(meta_dir: &str) -> (r: String)
    ensures
        r@ == spec_generations_dir(meta_dir@),
{
    path_join(meta_dir, "generations")
}

/// The directory of a single generation.
pub fn generation_dir(meta_dir: &str, generation: &str) -> (r: String)
    ensures
        r@ == spec_generation_dir(meta_dir@, generation@),
{
    let d = generations_dir(meta_dir);
    path_join(d.as_str(), generation)
}

/// The snapshots directory of a generation, with a trailing slash.
pub fn snapshots_dir(db: &str, generation: &str) -> (r: String)
    ensures
        r@ == spec_path_join(spec_generation_dir(db@, generation@), "snapshots/"@),
{
    let d = generation_dir(db, generation);
    path_join(d.as_str(), "snapshots/")
}

/// The path of one snapshot object of a generation.
pub fn snapshot_file(db: &str, generation: &str, index: u64) -> (r: String)
    requires
        index <= u32::MAX,
    ensures
        r@ == spec_path_join(
            spec_path_join(spec_generation_dir(db@, generation@), "snapshots"@),
            spec_snapshot_name(index as u32),
        ),
{
    let d = generation_dir(db, generation);
    let d2 = path_join(d.as_str(), "snapshots");
    let name = format_snapshot_path(index);
    path_join(d2.as_str(), name.as_str())
}

/// The WAL segments directory of a generation, with a trailing slash.
pub fn walsegments_dir(db: &str, generation: &str) -> (r: String)
    ensures
        r@ == spec_path_join(spec_generation_dir(db@, generation@), "wal/"@),
{
    let d = generation_dir(db, generation);
    path_join(d.as_str(), "wal/")
}

/// The path of one WAL segment object of a generation.
pub fn walsegment_file(db: &str, generation: &str, index: u64, offset: u64) -> (r: String)
    requires
        index <= u32::MAX,
        offset <= u32::MAX,
    ensures
        r@ == spec_path_join(
            spec_path_join(spec_generation_dir(db@, generation@), "wal"@),
            spec_walsegment_name(index as u32, offset as u32),
        ),
{
    let d = generation_dir(db, generation);
    let d2 = path_join(d.as_str(), "wal");
    let name = format_walsegment_path(index, offset);
    path_join(d2.as_str(), name.as_str())
}

/// The file that stores the name of the current generation.
pub fn generation_file_path(meta_dir: &str) -> (r: String)
    ensures
        r@ == spec_path_join(meta_dir@, "generation"@),
{
    path_join(meta_dir, "generation")
}

/// The shadow WAL directory of a generation.
pub open spec fn spec_shadow_wal_dir(meta_dir: Seq<char>, generation: Seq<char>) -> Seq<char> {
    spec_path_join(spec_generation_dir(meta_dir, generation), "wal"@)
}

/// The shadow WAL directory of a generation.
pub fn shadow_wal_dir(meta_dir: &str, generation: &str) -> (r: String)
    ensures
        r@ == spec_shadow_wal_dir(meta_dir@, generation@),
{
    let d = generation_dir(meta_dir, generation);
    path_join(d.as_str(), "wal")
}

/// The path of one shadow WAL file of a generation.
pub fn shadow_wal_file(meta_dir: &str, generation: &str, index: u64) -> (r: String)
    requires
        index <= u32::MAX,
    ensures
        r@ == spec_path_join(
            spec_shadow_wal_dir(meta_dir@, generation@),
            spec_wal_name(index as u32),
        ),
{
    let d = shadow_wal_dir(meta_dir, generation);
    let name = format_wal_path(index);
    path_join(d.as_str(), name.as_str())
}

} // verus!

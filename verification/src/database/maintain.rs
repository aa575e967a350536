use vstd::prelude::*;

use crate::base::file::spec_base_of;
use crate::base::file::spec_path_base_ok;
use crate::base::file::is_wal_name;
use crate::base::file::spec_hex8_val_at;
use crate::base::file::path_base;
use crate::base::file::parse_wal_path;
use crate::base::generation::Generation;
use crate::database::position::WalGenerationPos;
use crate::error::Error;

verus! {

/// The largest shadow WAL index; when the current index reaches it, the
/// verifier forces a new generation instead of rolling further.
pub const MAX_WAL_INDEX: u64 = 0x7FFFFFFF;

/// The generation named by the pointer file's content: the content itself
/// when it is exactly 32 characters, the empty string otherwise (missing
/// file included).
pub fn current_generation_of(content: Option<&str>) -> (r: String)
    ensures
        content is None ==> r@.len() == 0,
        content matches Some(s) ==> (s@.len() != 32 ==> r@.len() == 0),
        content matches Some(s) ==> (s@.len() == 32 ==> r@ == s@),
{
    match content {
        None => String::new(),
        Some(s) => {
            if s.unicode_len() != 32 {
                String::new()
            } else {
                String::from_str(s)
            }
        },
    }
}

/// Whether the live WAL must be created by issuing a write: it is missing
/// or shorter than a WAL header. A live WAL path that is not a regular
/// file is an error.
pub fn wal_needs_init(exists: bool, is_file: bool, len: u64) -> (r: Result<bool, Error>)
    ensures
        (r is Err) == (exists && !is_file),
        r matches Ok(b) ==> b == !(exists && len >= 32),
        r matches Err(e) ==> e is SqliteWal,
{
    if exists {
        if !is_file {
            return Err(Error::SqliteWal(String::from_str("wal is not a file")));
        }
        if len >= 32 {
            return Ok(false);
        }
        Ok(true)
    } else {
        Ok(true)
    }
}

/// Sum of a sequence of sizes.
pub open spec fn spec_sum(s: Seq<u64>) -> int
    decreases s.len(),
{
    if s.len() == 0 {
        0
    } else {
        spec_sum(s.drop_last()) + s.last()
    }
}

/// The largest index encoded in the shadow WAL file names of `s`; names
/// that are not shadow WAL names are ignored; zero when none parses.
pub open spec fn spec_max_wal_index(s: Seq<String>) -> int
    decreases s.len(),
{
    if s.len() == 0 {
        0
    } else {
        let m = spec_max_wal_index(s.drop_last());
        let e = s.last()@;
        if spec_path_base_ok(e) && is_wal_name(spec_base_of(e)) && spec_hex8_val_at(
            spec_base_of(e),
            0,
        ) > m {
            spec_hex8_val_at(spec_base_of(e), 0)
        } else {
            m
        }
    }
}

/// The current shadow WAL index of a generation, read off a directory
/// listing: the largest index among the shadow WAL file names, and the
/// total size of all listed files. Names that do not parse are skipped.
pub fn current_shadow_index(names: &Vec<String>, sizes: &Vec<u64>) -> (r: (u64, u64))
    requires
        names@.len() == sizes@.len(),
        spec_sum(sizes@) <= u64::MAX,
    ensures
        r.0 == spec_max_wal_index(names@),
        r.1 == spec_sum(sizes@),
{
    let mut index: u64 = 0;
    let mut total_size: u64 = 0;
    let mut i: usize = 0;
    proof {
        assert(names@.take(0) =~= Seq::<String>::empty());
        assert(sizes@.take(0) =~= Seq::<u64>::empty());
    }
    while i < names.len()
        invariant
            i <= names@.len(),
            names@.len() == sizes@.len(),
            spec_sum(sizes@) <= u64::MAX,
            index == spec_max_wal_index(names@.take(i as int)),
            total_size == spec_sum(sizes@.take(i as int)),
            index <= u64::MAX,
        decreases names@.len() - i,
    {
        proof {
            assert(sizes@.take(i as int + 1).drop_last() =~= sizes@.take(i as int));
            assert(names@.take(i as int + 1).drop_last() =~= names@.take(i as int));
            assert(sizes@.take(i as int + 1).last() == sizes@[i as int]);
            assert(names@.take(i as int + 1).last() == names@[i as int]);
            lemma_sum_take_bound(sizes@, i as int + 1);
        }
        total_size = total_size + sizes[i];
        match parse_wal_path(names[i].as_str()) {
            Ok(v) => {
                if v > index {
                    index = v;
                }
            },
            Err(_) => {},
        }
        i = i + 1;
    }
    proof {
        assert(names@.take(names@.len() as int) =~= names@);
        assert(sizes@.take(sizes@.len() as int) =~= sizes@);
    }
    (index, total_size)
}

/// A prefix sum of non-negative sizes is bounded by the whole sum.
proof fn lemma_sum_take_bound(s: Seq<u64>, n: int)
    requires
        0 <= n <= s.len(),
    ensures
        spec_sum(s.take(n)) <= spec_sum(s),
    decreases s.len() - n,
{
    if n < s.len() {
        lemma_sum_take_bound(s, n + 1);
        assert(s.take(n + 1).drop_last() =~= s.take(n));
        assert(spec_sum(s.take(n)) <= spec_sum(s.take(n + 1)));
    } else {
        assert(s.take(n) =~= s);
    }
}

/// The names under the generations directory that `clean_generations`
/// removes: every entry whose base name is not the current generation.
pub fn plan_clean_generations(entries: &Vec<String>, current: &str) -> (r: Result<
    Vec<String>,
    Error,
>)
    ensures
        (r is Ok) == (forall|i: int|
            0 <= i < entries@.len() ==> spec_path_base_ok(#[trigger] entries@[i]@)),
        r matches Ok(v) ==> v@.map_values(|e: String| e@) == entries@.map_values(
            |e: String| e@,
        ).filter(|e: Seq<char>| spec_base_of(e) != current@),
        r matches Err(e) ==> e is InvalidPath,
{
    let ghost pred = |e: Seq<char>| spec_base_of(e) != current@;
    let mut out: Vec<String> = Vec::new();
    let mut i: usize = 0;
    proof {
        reveal_with_fuel(Seq::<Seq<char>>::filter, 2);
        assert(entries@.map_values(|e: String| e@).take(0) =~= Seq::<Seq<char>>::empty());
        assert(out@.map_values(|e: String| e@) =~= Seq::<Seq<char>>::empty().filter(pred));
    }
    while i < entries.len()
        invariant
            i <= entries@.len(),
            forall|j: int| 0 <= j < i ==> spec_path_base_ok(#[trigger] entries@[j]@),
            pred == (|e: Seq<char>| spec_base_of(e) != current@),
            out@.map_values(|e: String| e@) == entries@.map_values(|e: String| e@).take(
                i as int,
            ).filter(pred),
        decreases entries@.len() - i,
    {
        let base = match path_base(entries[i].as_str()) {
            Ok(b) => b,
            Err(e) => {
                return Err(e);
            },
        };
        let keep = !crate::base::string::str_equal(base.as_str(), current);
        proof {
            let m = entries@.map_values(|e: String| e@);
            assert(m.take(i as int + 1).drop_last() =~= m.take(i as int));
            assert(m.take(i as int + 1).last() == entries@[i as int]@);
        }
        if keep {
            out.push(entries[i].clone());
        }
        proof {
            let m = entries@.map_values(|e: String| e@);
            reveal_with_fuel(Seq::<Seq<char>>::filter, 2);
            assert(out@.map_values(|e: String| e@) =~= m.take(i as int + 1).filter(pred));
        }
        i = i + 1;
    }
    proof {
        let m = entries@.map_values(|e: String| e@);
        assert(m.take(entries@.len() as int) =~= m);
    }
    Ok(out)
}

/// The effective index of a replica's cursor for cleaning: its shadow
/// index when it is on `generation`, zero otherwise; the minimum over all
/// replicas, or `None` when there are no replicas.
pub open spec fn spec_min_replica_index(s: Seq<WalGenerationPos>, g: Seq<char>) -> Option<u64>
    decreases s.len(),
{
    if s.len() == 0 {
        None
    } else {
        let e: u64 = if s.last().generation@ == g {
            s.last().index
        } else {
            0
        };
        match spec_min_replica_index(s.drop_last(), g) {
            None => Some(e),
            Some(m) => if e < m {
                Some(e)
            } else {
                Some(m)
            },
        }
    }
}

/// The smallest shadow index any replica still needs on this generation;
/// a replica whose cursor is on another generation counts as zero.
pub fn min_replica_index(positions: &Vec<WalGenerationPos>, generation: &Generation) -> (r:
    Option<u64>)
    ensures
        r == spec_min_replica_index(positions@, generation@),
{
    let mut min: Option<u64> = None;
    let mut i: usize = 0;
    proof {
        assert(positions@.take(0) =~= Seq::<WalGenerationPos>::empty());
    }
    while i < positions.len()
        invariant
            i <= positions@.len(),
            min == spec_min_replica_index(positions@.take(i as int), generation@),
        decreases positions@.len() - i,
    {
        proof {
            assert(positions@.take(i as int + 1).drop_last() =~= positions@.take(i as int));
            assert(positions@.take(i as int + 1).last() == positions@[i as int]);
        }
        let e: u64 = if crate::base::string::str_equal(
            positions[i].generation.as_str(),
            generation.as_str(),
        ) {
            positions[i].index
        } else {
            0
        };
        min = match min {
            None => Some(e),
            Some(m) => if e < m {
                Some(e)
            } else {
                Some(m)
            },
        };
        i = i + 1;
    }
    proof {
        assert(positions@.take(positions@.len() as int) =~= positions@);
    }
    min
}

/// How far shadow WAL files may be removed: one file below the smallest
/// replica cursor, and nothing at all while any replica still sits at
/// index zero or no replica reported a cursor.
pub fn wal_clean_threshold(min: Option<u64>) -> (r: Option<u64>)
    ensures
        min is None ==> r is None,
        min matches Some(m) ==> (m == 0 ==> r is None),
        min matches Some(m) ==> (m > 0 ==> r == Some((m - 1) as u64)),
{
    match min {
        None => None,
        Some(m) => {
            if m == 0 {
                None
            } else {
                Some(m - 1)
            }
        },
    }
}

/// The shadow WAL file names below `min_index`, which `clean_wal`
/// removes. Fails when a name in the directory does not parse as a shadow
/// WAL name.
pub fn plan_clean_wal(entries: &Vec<String>, min_index: u64) -> (r: Result<Vec<String>, Error>)
    ensures
        (r is Ok) == (forall|i: int|
            0 <= i < entries@.len() ==> spec_path_base_ok(#[trigger] entries@[i]@) && is_wal_name(
                spec_base_of(entries@[i]@),
            )),
        r matches Ok(v) ==> v@.map_values(|e: String| e@) == entries@.map_values(
            |e: String| e@,
        ).filter(|e: Seq<char>| spec_hex8_val_at(spec_base_of(e), 0) < min_index),
        r matches Err(e) ==> e is InvalidPath,
{
    let ghost pred = |e: Seq<char>| spec_hex8_val_at(spec_base_of(e), 0) < min_index;
    let mut out: Vec<String> = Vec::new();
    let mut i: usize = 0;
    proof {
        reveal_with_fuel(Seq::<Seq<char>>::filter, 2);
        assert(entries@.map_values(|e: String| e@).take(0) =~= Seq::<Seq<char>>::empty());
        assert(out@.map_values(|e: String| e@) =~= Seq::<Seq<char>>::empty().filter(pred));
    }
    while i < entries.len()
        invariant
            i <= entries@.len(),
            forall|j: int|
                0 <= j < i ==> spec_path_base_ok(#[trigger] entries@[j]@) && is_wal_name(
                    spec_base_of(entries@[j]@),
                ),
            pred == (|e: Seq<char>| spec_hex8_val_at(spec_base_of(e), 0) < min_index),
            out@.map_values(|e: String| e@) == entries@.map_values(|e: String| e@).take(
                i as int,
            ).filter(pred),
        decreases entries@.len() - i,
    {
        let index = match parse_wal_path(entries[i].as_str()) {
            Ok(v) => v,
            Err(e) => {
                return Err(e);
            },
        };
        proof {
            let m = entries@.map_values(|e: String| e@);
            assert(m.take(i as int + 1).drop_last() =~= m.take(i as int));
            assert(m.take(i as int + 1).last() == entries@[i as int]@);
        }
        if index < min_index {
            out.push(entries[i].clone());
        }
        proof {
            let m = entries@.map_values(|e: String| e@);
            reveal_with_fuel(Seq::<Seq<char>>::filter, 2);
            assert(out@.map_values(|e: String| e@) =~= m.take(i as int + 1).filter(pred));
        }
        i = i + 1;
    }
    proof {
        let m = entries@.map_values(|e: String| e@);
        assert(m.take(entries@.len() as int) =~= m);
    }
    Ok(out)
}

} // verus!

use vstd::prelude::*;

use crate::base::generation::Generation;
use crate::base::generation::spec_generation_str_ok;
use crate::base::generation::spec_hex_lower;
use crate::base::file::shadow_wal_file;
use crate::base::file::spec_shadow_wal_dir;
use crate::base::file::spec_wal_name;
use crate::base::file::spec_path_join;
use crate::database::maintain::MAX_WAL_INDEX;
use crate::error::Error;
use crate::sqlite::common::spec_align_frame;
use crate::sqlite::common::align_frame;
use crate::sqlite::wal_header::WALHeader;
use crate::sqlite::wal_header::spec_header_valid;

verus! {

/// Why verification decided that a fresh generation must be started.
#[derive(Clone, Debug, PartialEq, Eq, Structural)]
pub enum SyncReason {
    NoGenerationExists,
    NoShadowWal,
    ShortShadowWal,
    WalTruncated,
    MaxIndexExceeded,
    WalHeaderOnlyMismatched,
    WalOverwritten,
}

impl SyncReason {
    /// The reason, in the words the logs record.
    pub fn as_str(&self) -> (r: &'static str)
        ensures
            self is NoGenerationExists ==> r@ == "no generation exists"@,
            self is NoShadowWal ==> r@ == "no shadow wal"@,
            self is ShortShadowWal ==> r@ == "short shadow wal"@,
            self is WalTruncated ==> r@ == "wal truncated by another process"@,
            self is MaxIndexExceeded ==> r@ == "max index exceeded"@,
            self is WalHeaderOnlyMismatched ==> r@ == "wal header only, mismatched"@,
            self is WalOverwritten ==> r@ == "wal overwritten by another process"@,
    {
        match self {
            SyncReason::NoGenerationExists => "no generation exists",
            SyncReason::NoShadowWal => "no shadow wal",
            SyncReason::ShortShadowWal => "short shadow wal",
            SyncReason::WalTruncated => "wal truncated by another process",
            SyncReason::MaxIndexExceeded => "max index exceeded",
            SyncReason::WalHeaderOnlyMismatched => "wal header only, mismatched",
            SyncReason::WalOverwritten => "wal overwritten by another process",
        }
    }
}

/// What one verification pass found: the generation it looked at, the
/// aligned sizes of the live and shadow WAL, the shadow file it examined,
/// whether the live WAL header was rewritten (`restart`), and the reason a
/// new generation must start, if one must.
#[derive(Debug)]
pub struct SyncInfo {
    pub generation: Generation,
    pub db_mod_time: Option<u64>,
    pub index: u64,
    pub wal_size: u64,
    pub shadow_wal_file: String,
    pub shadow_wal_size: u64,
    pub reason: Option<SyncReason>,
    pub restart: bool,
}

/// The decision the verifier reaches on the given filesystem observations.
pub ghost enum VerifyOutcome {
    BadGeneration,
    BadWalHeader,
    Reason(SyncReason, bool),
    Clean(bool),
}

/// The verifier's decision, in the order the checks run: a missing
/// generation, a shadow index that reached the maximum (the next index
/// would pass `2^31 - 1`), a missing, short or over-long shadow, then
/// header and last-frame comparison against the live WAL.
pub open spec fn spec_verify(
    generation: Seq<char>,
    wal: Seq<u8>,
    index: u64,
    shadow: Option<Seq<u8>>,
    ps: int,
) -> VerifyOutcome {
    if generation.len() == 0 {
        VerifyOutcome::Reason(SyncReason::NoGenerationExists, false)
    } else if !spec_generation_str_ok(generation) {
        VerifyOutcome::BadGeneration
    } else if index >= MAX_WAL_INDEX {
        VerifyOutcome::Reason(SyncReason::MaxIndexExceeded, false)
    } else if shadow is None {
        VerifyOutcome::Reason(SyncReason::NoShadowWal, false)
    } else {
        let s = shadow.unwrap();
        if s.len() < 32 {
            VerifyOutcome::Reason(SyncReason::ShortShadowWal, false)
        } else {
            let ss = spec_align_frame(ps, s.len() as int);
            let ws = spec_align_frame(ps, wal.len() as int);
            if ss > ws {
                VerifyOutcome::Reason(SyncReason::WalTruncated, false)
            } else if !spec_header_valid(wal) {
                VerifyOutcome::BadWalHeader
            } else if !spec_header_valid(s) {
                VerifyOutcome::BadWalHeader
            } else {
                let restart = wal.subrange(0, 32) != s.subrange(0, 32);
                if ss == 32 && restart {
                    VerifyOutcome::Reason(SyncReason::WalHeaderOnlyMismatched, true)
                } else if ss > 32 && wal.subrange(ss - 24 - ps, ss) != s.subrange(
                    ss - 24 - ps,
                    ss,
                ) {
                    VerifyOutcome::Reason(SyncReason::WalOverwritten, restart)
                } else {
                    VerifyOutcome::Clean(restart)
                }
            }
        }
    }
}

/// Whether two byte ranges `[off, off + len)` of `a` and `b` are equal.
fn bytes_range_eq(a: &Vec<u8>, b: &Vec<u8>, off: usize, len: usize) -> (r: bool)
    requires
        off + len <= a@.len(),
        off + len <= b@.len(),
        off + len <= usize::MAX,
    ensures
        r == (a@.subrange(off as int, off as int + len as int) == b@.subrange(
            off as int,
            off as int + len as int,
        )),
{
    let mut i: usize = 0;
    while i < len
        invariant
            i <= len,
            off + len <= a@.len(),
            off + len <= b@.len(),
            off + len <= usize::MAX,
            forall|j: int| off <= j < off + i ==> a@[j] == b@[j],
        decreases len - i,
    {
        if a[off + i] != b[off + i] {
            proof {
                assert(a@.subrange(off as int, off as int + len as int)[i as int] != b@.subrange(
                    off as int,
                    off as int + len as int,
                )[i as int]);
            }
            return false;
        }
        i = i + 1;
    }
    proof {
        assert(a@.subrange(off as int, off as int + len as int) =~= b@.subrange(
            off as int,
            off as int + len as int,
        ));
    }
    true
}

/// Check that the shadow WAL state still matches the live WAL, and
/// classify any mismatch.
///
/// `generation` is the content the generation pointer resolves to (empty
/// when there is none), `db_mod_time` the database file's modification
/// time in seconds when known, `wal` the live WAL bytes, `index` the
/// current shadow index, and `shadow` the bytes of the shadow file at that
/// index, when it exists.
///
/// A filled `reason` means a new generation must be started; `restart`
/// set without a reason means the live WAL header was rewritten and the
/// sync must roll to the next index after finishing this one.
#[verifier::rlimit(60)]
pub fn verify(
    meta_dir: &str,
    generation: &str,
    db_mod_time: Option<u64>,
    wal: &Vec<u8>,
    index: u64,
    shadow: Option<&Vec<u8>>,
    page_size: u64,
) -> (r: Result<SyncInfo, Error>)
    requires
        1024 <= page_size <= 65536,
    ensures
        ({
            let ghost_shadow = match shadow {
                Some(s) => Some(s@),
                None => None,
            };
            let outcome = spec_verify(generation@, wal@, index, ghost_shadow, page_size as int);
            &&& (r is Err) == (outcome is BadGeneration || outcome is BadWalHeader)
            &&& (r matches Err(e) ==> ((outcome is BadGeneration ==> e is Uuid) && (
            outcome is BadWalHeader ==> e is SqliteInvalidWalHeader)))
            &&& (r matches Ok(i) ==> i.db_mod_time == db_mod_time)
            &&& (r matches Ok(i) ==> match outcome {
                VerifyOutcome::Reason(why, restart) => i.reason == Some(why) && i.restart
                    == restart,
                VerifyOutcome::Clean(restart) => i.reason is None && i.restart == restart,
                _ => false,
            })
            &&& (r matches Ok(i) ==> (generation@.len() > 0 ==> i.generation@ == Seq::new(
                32,
                |k: int| spec_hex_lower(generation@[k]),
            )))
            &&& (r matches Ok(i) ==> ((!(outcome matches VerifyOutcome::Reason(
                SyncReason::NoGenerationExists,
                _,
            )) && !(outcome matches VerifyOutcome::Reason(SyncReason::MaxIndexExceeded, _)))
                ==> i.shadow_wal_file@ == spec_path_join(
                spec_shadow_wal_dir(meta_dir@, i.generation@),
                spec_wal_name(index as u32),
            )))
            &&& (r matches Ok(i) ==> ((outcome is Clean || outcome matches
                VerifyOutcome::Reason(SyncReason::WalOverwritten, _) || outcome matches
                VerifyOutcome::Reason(SyncReason::WalHeaderOnlyMismatched, _))
                ==> i.wal_size == spec_align_frame(page_size as int, wal@.len() as int)
                && (shadow matches Some(s) && i.shadow_wal_size == spec_align_frame(
                page_size as int,
                s@.len() as int,
            ))))
        }),
{
    let mut info = SyncInfo {
        generation: Generation::default(),
        db_mod_time,
        index: 0,
        wal_size: 0,
        shadow_wal_file: String::new(),
        shadow_wal_size: 0,
        reason: None,
        restart: false,
    };
    let n = generation.unicode_len();
    if n == 0 {
        info.reason = Some(SyncReason::NoGenerationExists);
        return Ok(info);
    }
    let gen = match Generation::try_create(generation) {
        Ok(g) => g,
        Err(e) => {
            return Err(e);
        },
    };
    info.generation = gen;
    let wal_size = align_frame(page_size, wal.len() as u64);
    info.wal_size = wal_size;
    if index >= MAX_WAL_INDEX {
        info.reason = Some(SyncReason::MaxIndexExceeded);
        return Ok(info);
    }
    info.shadow_wal_file = shadow_wal_file(meta_dir, info.generation.as_str(), index);
    let shadow = match shadow {
        None => {
            info.reason = Some(SyncReason::NoShadowWal);
            return Ok(info);
        },
        Some(s) => s,
    };
    let shadow_wal_size = align_frame(page_size, shadow.len() as u64);
    info.shadow_wal_size = shadow_wal_size;
    if shadow.len() < 32 {
        info.reason = Some(SyncReason::ShortShadowWal);
        return Ok(info);
    }
    if shadow_wal_size > wal_size {
        info.reason = Some(SyncReason::WalTruncated);
        return Ok(info);
    }
    let wal_header = match WALHeader::read_from(wal) {
        Ok(h) => h,
        Err(e) => {
            return Err(e);
        },
    };
    let shadow_header = match WALHeader::read_from(shadow) {
        Ok(h) => h,
        Err(e) => {
            return Err(e);
        },
    };
    let headers_equal = bytes_range_eq(wal, shadow, 0, 32);
    proof {
        assert(wal_header.data@ == wal@.subrange(0, 32));
        assert(shadow_header.data@ == shadow@.subrange(0, 32));
    }
    if !headers_equal {
        info.restart = true;
    }
    if shadow_wal_size == 32 && info.restart {
        info.reason = Some(SyncReason::WalHeaderOnlyMismatched);
        return Ok(info);
    }
    if shadow_wal_size > 32 {
        proof {
            assert((shadow_wal_size - 32) % (24 + page_size as int) == 0);
            vstd::arithmetic::div_mod::lemma_mod_is_zero(
                (shadow_wal_size - 32) as nat,
                (24 + page_size) as nat,
            );
            assert(shadow_wal_size - 32 >= 24 + page_size);
            assert(shadow_wal_size <= shadow@.len());
            assert(shadow_wal_size <= wal_size <= wal@.len());
        }
        let offset = (shadow_wal_size - 24 - page_size) as usize;
        let frame_len = (24 + page_size) as usize;
        let frames_equal = bytes_range_eq(wal, shadow, offset, frame_len);
        if !frames_equal {
            info.reason = Some(SyncReason::WalOverwritten);
            return Ok(info);
        }
    }
    Ok(info)
}


/// Whether a sync cycle observed any change worth announcing to the
/// replicas: the shadow fell behind the live WAL, the WAL header was
/// rewritten, or a new generation is required.
pub fn sync_changed(info: &SyncInfo) -> (r: bool)
    ensures
        r == (info.wal_size != info.shadow_wal_size || info.restart || info.reason is Some),
{
    info.wal_size != info.shadow_wal_size || info.restart || info.reason.is_some()
}

} // verus!

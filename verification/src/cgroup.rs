//! The cgroup controller's computed parts: the per-sandbox cgroup name
//! and the CPU usage reading.
//!
//! The kernel reports CPU usage in `cpu.stat` as text lines; the line
//! whose first space-separated field is `usage_usec` carries the usage in
//! microseconds, which is scaled to nanoseconds here. A malformed or
//! missing field yields `None`.

use crate::bytes::{bytes_eq, find_byte, find_byte_in, lemma_find_byte};
use crate::decimal::{all_digit_bytes, dec_str, dec_val, parse_u64, u64_to_dec};
use vstd::prelude::*;
use vstd::slice::slice_subrange;
use vstd::string::StringSliceAdditionalSpecFns;

verus! {

/// The cgroup a sandbox owns: `omogen-` followed by its id.
pub fn cgroup_name(sandbox_id: u32) -> (name: String)
    ensures
        name@ == "omogen-"@ + dec_str(sandbox_id as nat),
{
    String::from_str("omogen-").concat(u64_to_dec(sandbox_id as u64).as_str())
}

/// The label that marks the CPU usage line of `cpu.stat`.
pub open spec fn usage_label() -> Seq<u8> {
    "usage_usec".spec_bytes()
}

/// The first space-separated field of a line.
pub open spec fn first_field(l: Seq<u8>) -> Seq<u8> {
    match find_byte(l, 32) {
        None => l,
        Some(i) => l.subrange(0, i as int),
    }
}

/// The second space-separated field of a line; empty when there is none.
pub open spec fn second_field(l: Seq<u8>) -> Seq<u8> {
    match find_byte(l, 32) {
        None => Seq::empty(),
        Some(i) => {
            let r = l.subrange(i as int + 1, l.len() as int);
            match find_byte(r, 32) {
                None => r,
                Some(j) => r.subrange(0, j as int),
            }
        },
    }
}

/// Whether this line is the usage line.
pub open spec fn line_matches(l: Seq<u8>) -> bool {
    first_field(l) == usage_label()
}

/// The microsecond value a usage line carries, when its second field is a
/// nonempty run of digits.
pub open spec fn line_value(l: Seq<u8>) -> Option<nat> {
    let f = second_field(l);
    if f.len() > 0 && all_digit_bytes(f) {
        Some(dec_val(f))
    } else {
        None
    }
}

/// The `usage_usec` value of a `cpu.stat` text: the value of the first
/// line labelled `usage_usec`, or `None` when no line is, or when that
/// line's value does not parse.
pub open spec fn spec_cpu_stat_usec(s: Seq<u8>) -> Option<nat>
    decreases s.len(),
{
    match find_byte(s, 10) {
        None => if line_matches(s) {
            line_value(s)
        } else {
            None
        },
        Some(i) => {
            let l = s.subrange(0, i as int);
            if line_matches(l) {
                line_value(l)
            } else if i < s.len() {
                spec_cpu_stat_usec(s.subrange(i as int + 1, s.len() as int))
            } else {
                None
            }
        },
    }
}

/// Reads the CPU usage out of a `cpu.stat` text, in nanoseconds: the
/// `usage_usec` field scaled by 1000. `None` when the field is absent,
/// malformed, or too large to scale.
pub fn cpu_stat_nanos(stat: &[u8]) -> (r: Option<u64>)
    ensures
        match spec_cpu_stat_usec(stat@) {
            Some(v) => if v * 1000 <= u64::MAX {
                r == Some((v * 1000) as u64)
            } else {
                r.is_none()
            },
            None => r.is_none(),
        },
    decreases stat@.len(),
{
    proof {
        lemma_find_byte(stat@, 10);
    }
    let nl = find_byte_in(stat, 10);
    let line: &[u8] = match nl {
        None => stat,
        Some(i) => slice_subrange(stat, 0, i),
    };
    proof {
        lemma_find_byte(line@, 32);
    }
    let sp = find_byte_in(line, 32);
    let ff: &[u8] = match sp {
        None => line,
        Some(j) => slice_subrange(line, 0, j),
    };
    if bytes_eq(ff, "usage_usec".as_bytes()) {
        assert(line_matches(line@));
        match sp {
            None => {
                assert(second_field(line@) =~= Seq::<u8>::empty());
                None
            },
            Some(j) => {
                let line_len = line.len();
                assert(j < line_len);
                let tail = slice_subrange(line, j + 1, line_len);
                proof {
                    lemma_find_byte(tail@, 32);
                }
                let f: &[u8] = match find_byte_in(tail, 32) {
                    None => tail,
                    Some(k) => slice_subrange(tail, 0, k),
                };
                assert(f@ == second_field(line@));
                match parse_u64(f) {
                    None => {
                        proof {
                            if second_field(line@).len() > 0 && all_digit_bytes(
                                second_field(line@),
                            ) {
                                assert(dec_val(f@) > u64::MAX);
                                assert(dec_val(f@) * 1000 > u64::MAX) by (nonlinear_arith)
                                    requires
                                        dec_val(f@) > u64::MAX,
                                ;
                            }
                        }
                        None
                    },
                    Some(v) => {
                        match v.checked_mul(1000) {
                            Some(ns) => Some(ns),
                            None => None,
                        }
                    },
                }
            },
        }
    } else {
        assert(!line_matches(line@));
        match nl {
            None => None,
            Some(i) => {
                let stat_len = stat.len();
                assert(i < stat_len);
                cpu_stat_nanos(slice_subrange(stat, i + 1, stat_len))
            },
        }
    }
}

} // verus!

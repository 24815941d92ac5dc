//! Keyed per-row content hashing for hash-based joins and group-bys: each
//! row is serialized to a byte string that is a pure function of its cell
//! value, and the byte strings are hashed with one fixed-seed hasher, so
//! equal rows always hash equal within a call.

use vstd::prelude::*;

use crate::column::raw_bool;
use crate::column::raw_int;
use crate::column::int_kind;
use crate::column::Column;
use crate::column::ColumnData;
use crate::column::StorageKind;
use crate::column::subvec;
use crate::value::Cell;

verus! {

/// The magnitude of an integer.
pub open spec fn int_mag(v: int) -> nat {
    if v >= 0 {
        v as nat
    } else {
        (-v) as nat
    }
}

/// The `k` low-order base-256 digits of `u`, least significant first.
pub open spec fn le_bytes(u: nat, k: nat) -> Seq<u8>
    decreases k,
{
    if k == 0 {
        Seq::empty()
    } else {
        seq![(u % 256) as u8] + le_bytes(u / 256, (k - 1) as nat)
    }
}

/// The byte string standing for one cell: a tag byte, then the value. Equal
/// cells always serialize to equal byte strings.
pub open spec fn enc_cell(c: Cell) -> Seq<u8> {
    match c {
        Cell::Null => seq![0u8],
        Cell::Int(v) => seq![
            1u8,
            if v < 0 {
                1u8
            } else {
                0u8
            },
        ] + le_bytes(int_mag(v), 16),
        Cell::Bool(b) => seq![
            2u8,
            if b {
                1u8
            } else {
                0u8
            },
        ],
        Cell::Bytes(s) => seq![3u8] + s,
    }
}

/// The `k` low-order base-256 digits of `u`, least significant first.
fn le_bytes_exec(u: u128, k: u32) -> (r: Vec<u8>)
    ensures
        r@ == le_bytes(u as nat, k as nat),
    decreases k,
{
    if k == 0 {
        Vec::new()
    } else {
        let b = (u % 256) as u8;
        let mut rest = le_bytes_exec(u / 256, k - 1);
        rest.insert(0, b);
        proof {
            assert(rest@ =~= le_bytes(u as nat, k as nat));
        }
        rest
    }
}

/// Serialize row `i` of a column to the byte string of its cell.
fn encode_row(c: &Column, i: usize) -> (r: Vec<u8>)
    requires
        c.wf(),
        i < c@.cells.len(),
    ensures
        r@ == enc_cell(c@.cells[i as int]),
{
    proof {
        assert(c@.cells[i as int] == c.cell_spec(i as int));
    }
    let mut out: Vec<u8> = Vec::new();
    if !c.is_valid_at(i) {
        out.push(0u8);
        proof {
            assert(out@ =~= enc_cell(c@.cells[i as int]));
        }
        return out;
    }
    let kind = c.data.kind();
    if kind != StorageKind::Bool && kind != StorageKind::Bytes {
        let v = raw_int(&c.data, i);
        out.push(1u8);
        out.push(if v < 0 {
            1u8
        } else {
            0u8
        });
        let mag: u128 = if v >= 0 {
            v as u128
        } else {
            (-(v + 1)) as u128 + 1
        };
        proof {
            assert(mag as nat == int_mag(v as int));
        }
        let mut digits = le_bytes_exec(mag, 16);
        out.append(&mut digits);
        proof {
            assert(out@ =~= enc_cell(c@.cells[i as int]));
        }
        return out;
    }
    if kind == StorageKind::Bool {
        let b = raw_bool(&c.data, i);
        out.push(2u8);
        out.push(if b {
            1u8
        } else {
            0u8
        });
        proof {
            assert(out@ =~= enc_cell(c@.cells[i as int]));
        }
        return out;
    }
    match &c.data {
        ColumnData::Bytes(rows) => {
            let row: &Vec<u8> = &rows[i];
            out.push(3u8);
            let mut copy = subvec(row, 0, row.len());
            proof {
                assert(row@.subrange(0, row@.len() as int) =~= row@);
            }
            out.append(&mut copy);
            proof {
                assert(out@ =~= enc_cell(c@.cells[i as int]));
            }
            out
        },
        _ => {
            proof {
                assert(false);
            }
            out
        },
    }
}

/// Relies on `ahash::RandomState::with_seeds` and its `hash_one`: a state
/// built from fixed seeds is deterministic, so within one call equal byte
/// strings hash to equal 64-bit values, one per row.
#[verifier::external_body]
fn hash_rows(seed: u64, rows: &Vec<Vec<u8>>) -> (out: Vec<u64>)
    ensures
        out@.len() == rows@.len(),
        forall|i: int, j: int|
            0 <= i < rows@.len() && 0 <= j < rows@.len() && rows@[i]@ == rows@[j]@ ==> out@[i]
                == out@[j],
{
    let state = ahash::RandomState::with_seeds(seed, seed, seed, seed);
    let mut out = Vec::with_capacity(rows.len());
    for row in rows.iter() {
        out.push(state.hash_one(row.as_slice()));
    }
    out
}

impl Column {
    /// One keyed hash per row. The seed is a randomization key chosen by the
    /// caller (not attacker-predictable); within one call, rows with equal
    /// values (nulls included) receive equal hashes.
    pub fn content_hash(&self, seed: u64) -> (r: Vec<u64>)
        requires
            self.wf(),
        ensures
            r@.len() == self@.cells.len(),
            forall|i: int, j: int|
                0 <= i < self@.cells.len() && 0 <= j < self@.cells.len() && self@.cells[i]
                    == self@.cells[j] ==> r@[i] == r@[j],
    {
        let n = self.len();
        let mut rows: Vec<Vec<u8>> = Vec::new();
        let mut i: usize = 0;
        while i < n
            invariant
                self.wf(),
                n == self@.cells.len(),
                i <= n,
                rows@.len() == i,
                forall|k: int| 0 <= k < i ==> rows@[k]@ == enc_cell(self@.cells[k]),
            decreases n - i,
        {
            rows.push(encode_row(self, i));
            i = i + 1;
        }
        hash_rows(seed, &rows)
    }
}

} // verus!

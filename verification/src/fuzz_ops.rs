//! Decoding a fuzzer's input bytes into a sequence of file-system
//! operations, and the names and contents those operations use.

use vstd::prelude::*;
use crate::text::{decimal, push_decimal};

verus! {

/// One operation performed by the writer fuzzer.
#[derive(Debug, PartialEq, Eq, Structural)]
pub enum Op {
    /// Write a file `f<name_idx>` of `size` bytes.
    WriteFile { name_idx: u8, size: u16 },
    /// Create a directory `d<name_idx>`.
    CreateDir { name_idx: u8 },
    /// Delete the file `f<name_idx>`.
    Delete { name_idx: u8 },
    /// Write the file `f<name_idx>` again with `size` bytes of other content.
    Overwrite { name_idx: u8, size: u16 },
}

/// Number of distinct file names the fuzzer uses.
pub const FILE_NAMES: u8 = 16;
/// Number of distinct directory names the fuzzer uses.
pub const DIR_NAMES: u8 = 8;
/// Files written by the fuzzer are smaller than this.
pub const MAX_FILE_SIZE: u16 = 4096;

/// The little-endian 16-bit value of two bytes.
pub open spec fn le16(lo: u8, hi: u8) -> int {
    lo + 256 * hi
}

/// The operation encoded by one group of four input bytes: the first
/// byte selects the kind (modulo 4), the second the name, and the last
/// two (little-endian) the size.
pub open spec fn decode_op(b0: u8, b1: u8, b2: u8, b3: u8) -> Op {
    if b0 % 4 == 0 {
        Op::WriteFile { name_idx: b1 % FILE_NAMES, size: (le16(b2, b3) % 4096) as u16 }
    } else if b0 % 4 == 1 {
        Op::CreateDir { name_idx: b1 % DIR_NAMES }
    } else if b0 % 4 == 2 {
        Op::Delete { name_idx: b1 % FILE_NAMES }
    } else {
        Op::Overwrite { name_idx: b1 % FILE_NAMES, size: (le16(b2, b3) % 4096) as u16 }
    }
}

/// The operation encoded by the `k`-th whole group of four bytes of `data`.
pub open spec fn op_at(data: Seq<u8>, k: int) -> Op {
    decode_op(data[4 * k], data[4 * k + 1], data[4 * k + 2], data[4 * k + 3])
}

/// Splits `data` into whole groups of four bytes and decodes each group
/// into an operation; a trailing partial group is ignored.
pub fn parse_ops(data: &[u8]) -> (ops: Vec<Op>)
    ensures
        ops@.len() == data@.len() / 4,
        forall|k: int| 0 <= k < ops@.len() ==> #[trigger] ops@[k] == op_at(data@, k),
{
    let mut ops: Vec<Op> = Vec::new();
    let len = data.len();
    let mut i: usize = 0;
    while len - i >= 4
        invariant
            len == data@.len(),
            i % 4 == 0,
            i <= len,
            ops@.len() == i / 4,
            forall|k: int| 0 <= k < ops@.len() ==> #[trigger] ops@[k] == op_at(data@, k),
        decreases len - i,
    {
        let size: u16 = ((data[i + 2] as u16) + (data[i + 3] as u16) * 256) % MAX_FILE_SIZE;
        let op = match data[i] % 4 {
            0 => Op::WriteFile { name_idx: data[i + 1] % FILE_NAMES, size },
            1 => Op::CreateDir { name_idx: data[i + 1] % DIR_NAMES },
            2 => Op::Delete { name_idx: data[i + 1] % FILE_NAMES },
            _ => Op::Overwrite { name_idx: data[i + 1] % FILE_NAMES, size },
        };
        proof {
            assert(i / 4 * 4 == i);
        }
        ops.push(op);
        i = i + 4;
    }
    ops
}

/// Every decoded operation names one of the fuzzer's 16 files or 8
/// directories, and every size is below 4096 bytes.
pub proof fn lemma_ops_in_bounds(b0: u8, b1: u8, b2: u8, b3: u8)
    ensures
        match decode_op(b0, b1, b2, b3) {
            Op::WriteFile { name_idx, size } => name_idx < FILE_NAMES && size < MAX_FILE_SIZE,
            Op::CreateDir { name_idx } => name_idx < DIR_NAMES,
            Op::Delete { name_idx } => name_idx < FILE_NAMES,
            Op::Overwrite { name_idx, size } => name_idx < FILE_NAMES && size < MAX_FILE_SIZE,
        },
{
}

/// The name of fuzzer file number `idx`: "f" followed by `idx` in decimal.
pub fn name_for(idx: u8) -> (name: String)
    ensures
        name@ == seq!['f'] + decimal(idx as nat),
{
    let mut s = String::new();
    proof {
        reveal_strlit("f");
    }
    s.append("f");
    push_decimal(&mut s, idx as u32);
    s
}

/// The name of fuzzer directory number `idx`: "d" followed by `idx` in
/// decimal.
pub fn dir_name_for(idx: u8) -> (name: String)
    ensures
        name@ == seq!['d'] + decimal(idx as nat),
{
    let mut s = String::new();
    proof {
        reveal_strlit("d");
    }
    s.append("d");
    push_decimal(&mut s, idx as u32);
    s
}

/// What the fuzzer asks of the file system for one operation.
pub enum FuzzAction {
    /// Write (create or replace) the file `name` with `content`.
    WriteFile { name: String, content: Vec<u8> },
    /// Create the directory `name`.
    CreateDir { name: String },
    /// Delete the file `name`.
    Delete { name: String },
}

/// The file-system request for `op`: a write fills the file with its name
/// index, an overwrite with the index plus one (wrapping), each repeated
/// `size` times.
pub fn op_action(op: &Op) -> (a: FuzzAction)
    ensures
        match (*op, a) {
            (Op::WriteFile { name_idx, size }, FuzzAction::WriteFile { name, content }) => {
                &&& name@ == seq!['f'] + decimal(name_idx as nat)
                &&& content@ == Seq::new(size as nat, |i: int| name_idx)
            },
            (Op::CreateDir { name_idx }, FuzzAction::CreateDir { name }) => name@ == seq!['d']
                + decimal(name_idx as nat),
            (Op::Delete { name_idx }, FuzzAction::Delete { name }) => name@ == seq!['f'] + decimal(
                name_idx as nat,
            ),
            (Op::Overwrite { name_idx, size }, FuzzAction::WriteFile { name, content }) => {
                &&& name@ == seq!['f'] + decimal(name_idx as nat)
                &&& content@ == Seq::new(size as nat, |i: int| name_idx.wrapping_add(1))
            },
            _ => false,
        },
{
    match op {
        Op::WriteFile { name_idx, size } => {
            let content = filled(*name_idx, *size as usize);
            FuzzAction::WriteFile { name: name_for(*name_idx), content }
        },
        Op::CreateDir { name_idx } => FuzzAction::CreateDir { name: dir_name_for(*name_idx) },
        Op::Delete { name_idx } => FuzzAction::Delete { name: name_for(*name_idx) },
        Op::Overwrite { name_idx, size } => {
            let content = filled(name_idx.wrapping_add(1), *size as usize);
            FuzzAction::WriteFile { name: name_for(*name_idx), content }
        },
    }
}

/// `n` copies of the byte `b`.
fn filled(b: u8, n: usize) -> (v: Vec<u8>)
    ensures
        v@ == Seq::new(n as nat, |i: int| b),
{
    let mut v: Vec<u8> = Vec::new();
    let mut k: usize = 0;
    while k < n
        invariant
            k <= n,
            v@ == Seq::new(k as nat, |i: int| b),
        decreases n - k,
    {
        v.push(b);
        k = k + 1;
        assert(v@ =~= Seq::new(k as nat, |i: int| b));
    }
    v
}

} // verus!

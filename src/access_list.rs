//! The operator's list of info hashes that the tracker serves or refuses.
use vstd::prelude::*;

use crate::config::AccessListMode;
use vstd::array::ArrayAdditionalExecFns;

use crate::types::InfoHash;

verus! {

pub struct AccessList {
    pub info_hashes: Vec<InfoHash>,
}

/// Whether a torrent with this info hash may be kept under `mode`.
pub open spec fn access_allows(mode: AccessListMode, list: Seq<InfoHash>, info_hash: InfoHash) -> bool {
    match mode {
        AccessListMode::Allow => list.contains(info_hash),
        AccessListMode::Deny => !list.contains(info_hash),
        AccessListMode::Ignore => true,
    }
}

impl AccessList {
    pub fn new() -> (r: AccessList)
        ensures
            r.info_hashes@.len() == 0,
    {
        AccessList { info_hashes: Vec::new() }
    }

    pub fn contains(&self, info_hash: &InfoHash) -> (r: bool)
        ensures
            r == self.info_hashes@.contains(*info_hash),
    {
        let mut i: usize = 0;
        while i < self.info_hashes.len()
            invariant
                0 <= i <= self.info_hashes@.len(),
                forall|j: int| 0 <= j < i ==> self.info_hashes@[j] != *info_hash,
            decreases self.info_hashes@.len() - i,
        {
            if self.info_hashes[i].same(info_hash) {
                return true;
            }
            i = i + 1;
        }
        false
    }

    pub fn allows(&self, mode: AccessListMode, info_hash: &InfoHash) -> (r: bool)
        ensures
            r == access_allows(mode, self.info_hashes@, *info_hash),
    {
        match mode {
            AccessListMode::Allow => self.contains(info_hash),
            AccessListMode::Deny => !self.contains(info_hash),
            AccessListMode::Ignore => true,
        }
    }
}

pub open spec fn is_hex_digit(c: u8) -> bool {
    (48 <= c <= 57) || (97 <= c <= 102) || (65 <= c <= 70)
}

pub open spec fn hex_value(c: u8) -> int {
    if 48 <= c <= 57 {
        c - 48
    } else if 97 <= c <= 102 {
        c - 87
    } else {
        c - 55
    }
}

fn hex_digit(c: u8) -> (r: Option<u8>)
    ensures
        r is Some <==> is_hex_digit(c),
        r is Some ==> r->Some_0 as int == hex_value(c),
{
    if 48 <= c && c <= 57 {
        Some(c - 48)
    } else if 97 <= c && c <= 102 {
        Some(c - 87)
    } else if 65 <= c && c <= 70 {
        Some(c - 55)
    } else {
        None
    }
}

/// Reads an info hash written as 40 hex digits (either case); `None` for anything else.
pub fn parse_info_hash_hex(line: &Vec<u8>) -> (r: Option<InfoHash>)
    ensures
        r is Some <==> (line@.len() == 40 && forall|i: int|
            0 <= i < 40 ==> is_hex_digit(#[trigger] line@[i])),
        r is Some ==> forall|i: int|
            0 <= i < 20 ==> (#[trigger] r->Some_0.0@[i]) as int == hex_value(line@[2 * i]) * 16
                + hex_value(line@[2 * i + 1]),
{
    if line.len() != 40 {
        return None;
    }
    let mut a = [0u8; 20];
    let mut i: usize = 0;
    while i < 20
        invariant
            0 <= i <= 20,
            line@.len() == 40,
            a@.len() == 20,
            forall|j: int| 0 <= j < 2 * i ==> is_hex_digit(#[trigger] line@[j]),
            forall|j: int|
                0 <= j < i ==> (#[trigger] a@[j]) as int == hex_value(line@[2 * j]) * 16
                    + hex_value(line@[2 * j + 1]),
        decreases 20 - i,
    {
        let high = hex_digit(line[2 * i]);
        let low = hex_digit(line[2 * i + 1]);
        match (high, low) {
            (Some(h), Some(l)) => {
                a.set(i, h * 16 + l);
            },
            _ => {
                return None;
            },
        }
        i = i + 1;
    }
    Some(InfoHash(a))
}

} // verus!

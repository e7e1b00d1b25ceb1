//! Telemetry snapshots and the fixed 40-byte record that carries them: five
//! big-endian 8-byte fields — the CPU percentage (an IEEE double, held here
//! as its bit pattern), then memory used/total and disk used/total in kB.

use vstd::prelude::*;

use crate::wire;
use crate::wire::{be_bytes, be_val};

verus! {

/// One session's latest host telemetry. The CPU field holds the bits of the
/// IEEE double the client sampled; the caller renders it as a float outside
/// this crate.
pub struct Statistics {
    /// Bit pattern of the CPU usage percentage.
    pub cpu_bits: u64,
    /// Memory used and total in kB.
    pub mem: (u64, u64),
    /// Disk space used and total in kB.
    pub disk: (u64, u64),
}

/// The 40-byte record carrying the five telemetry fields.
pub open spec fn spec_stats_record(cpu: u64, mu: u64, mt: u64, du: u64, dt: u64) -> Seq<u8> {
    be_bytes(cpu as nat, 8) + be_bytes(mu as nat, 8) + be_bytes(mt as nat, 8) + be_bytes(
        du as nat,
        8,
    ) + be_bytes(dt as nat, 8)
}

impl Statistics {
    /// A zeroed snapshot, as registered when a telemetry session starts.
    /// A zero CPU field is the bit pattern of 0.0.
    pub fn new() -> (r: Self)
        ensures
            r.cpu_bits == 0 && r.mem == (0u64, 0u64) && r.disk == (0u64, 0u64),
    {
        Statistics { cpu_bits: 0, mem: (0, 0), disk: (0, 0) }
    }

    /// CPU usage bit pattern.
    pub fn cpu(&self) -> (r: u64)
        ensures
            r == self.cpu_bits,
    {
        self.cpu_bits
    }

    /// Memory used and total in kB.
    pub fn mem(&self) -> (r: (u64, u64))
        ensures
            r == self.mem,
    {
        self.mem
    }

    /// Disk space used and total in kB.
    pub fn disk(&self) -> (r: (u64, u64))
        ensures
            r == self.disk,
    {
        self.disk
    }

    /// Applies one frame to the snapshot: a 40-byte record overwrites all
    /// five fields wholesale; any other length is ignored and the snapshot
    /// stays exactly as it was.
    pub fn apply_record(&mut self, data: &[u8])
        ensures
            data@.len() == 40 ==> {
                &&& final(self).cpu_bits == be_val(data@.subrange(0, 8))
                &&& final(self).mem.0 == be_val(data@.subrange(8, 16))
                &&& final(self).mem.1 == be_val(data@.subrange(16, 24))
                &&& final(self).disk.0 == be_val(data@.subrange(24, 32))
                &&& final(self).disk.1 == be_val(data@.subrange(32, 40))
            },
            data@.len() != 40 ==> *final(self) == *old(self),
    {
        if data.len() == 40 {
            proof {
                wire::lemma_be_val_bound(data@.subrange(8, 16));
                wire::lemma_be_val_bound(data@.subrange(16, 24));
                wire::lemma_be_val_bound(data@.subrange(24, 32));
                wire::lemma_be_val_bound(data@.subrange(32, 40));
                wire::lemma_pow256_8();
            }
            self.cpu_bits = wire::u64_from_be(vstd::slice::slice_subrange(data, 0, 8));
            self.mem = (
                wire::u64_from_be(vstd::slice::slice_subrange(data, 8, 16)),
                wire::u64_from_be(vstd::slice::slice_subrange(data, 16, 24)),
            );
            self.disk = (
                wire::u64_from_be(vstd::slice::slice_subrange(data, 24, 32)),
                wire::u64_from_be(vstd::slice::slice_subrange(data, 32, 40)),
            );
        }
    }
}

/// Encodes the five telemetry fields as the 40-byte record.
pub fn encode_stats(cpu_bits: u64, mem_used: u64, mem_total: u64, disk_used: u64, disk_total: u64) -> (r:
    Vec<u8>)
    ensures
        r@ == spec_stats_record(cpu_bits, mem_used, mem_total, disk_used, disk_total),
        r@.len() == 40,
{
    let mut r = wire::u64_to_be(cpu_bits);
    let mut b = wire::u64_to_be(mem_used);
    r.append(&mut b);
    let mut b = wire::u64_to_be(mem_total);
    r.append(&mut b);
    let mut b = wire::u64_to_be(disk_used);
    r.append(&mut b);
    let mut b = wire::u64_to_be(disk_total);
    r.append(&mut b);
    proof {
        assert(r@ =~= spec_stats_record(cpu_bits, mem_used, mem_total, disk_used, disk_total));
    }
    r
}

/// Record round trip: a record encoded from five fields decodes to exactly
/// those fields, and no record of another length is a record at all.
pub proof fn lemma_stats_record_round_trip(cpu: u64, mu: u64, mt: u64, du: u64, dt: u64)
    ensures
        spec_stats_record(cpu, mu, mt, du, dt).len() == 40,
        be_val(spec_stats_record(cpu, mu, mt, du, dt).subrange(0, 8)) == cpu,
        be_val(spec_stats_record(cpu, mu, mt, du, dt).subrange(8, 16)) == mu,
        be_val(spec_stats_record(cpu, mu, mt, du, dt).subrange(16, 24)) == mt,
        be_val(spec_stats_record(cpu, mu, mt, du, dt).subrange(24, 32)) == du,
        be_val(spec_stats_record(cpu, mu, mt, du, dt).subrange(32, 40)) == dt,
{
    let r = spec_stats_record(cpu, mu, mt, du, dt);
    wire::lemma_pow256_8();
    wire::lemma_be_bytes_len(cpu as nat, 8);
    wire::lemma_be_bytes_len(mu as nat, 8);
    wire::lemma_be_bytes_len(mt as nat, 8);
    wire::lemma_be_bytes_len(du as nat, 8);
    wire::lemma_be_bytes_len(dt as nat, 8);
    assert(r.subrange(0, 8) =~= be_bytes(cpu as nat, 8));
    assert(r.subrange(8, 16) =~= be_bytes(mu as nat, 8));
    assert(r.subrange(16, 24) =~= be_bytes(mt as nat, 8));
    assert(r.subrange(24, 32) =~= be_bytes(du as nat, 8));
    assert(r.subrange(32, 40) =~= be_bytes(dt as nat, 8));
    wire::lemma_be_val_be_bytes(cpu as nat, 8);
    wire::lemma_be_val_be_bytes(mu as nat, 8);
    wire::lemma_be_val_be_bytes(mt as nat, 8);
    wire::lemma_be_val_be_bytes(du as nat, 8);
    wire::lemma_be_val_be_bytes(dt as nat, 8);
}

} // verus!

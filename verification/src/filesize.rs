use vstd::prelude::*;

verus! {

/// Bytes in a pebibyte.
pub const PB: u64 = 1125899906842624;

/// Bytes in a tebibyte.
pub const TB: u64 = 1099511627776;

/// Bytes in a gibibyte.
pub const GB: u64 = 1073741824;

/// Bytes in a mebibyte.
pub const MB: u64 = 1048576;

/// Bytes in a kibibyte.
pub const KB: u64 = 1024;

/// The size of a file, split into counts per binary unit, largest
/// units filled first. A value built by `from_total_bytes` is reduced,
/// and on reduced values field equality coincides with equality of the
/// byte totals.
#[derive(Debug, Clone, Copy, PartialEq, Eq, Structural)]
pub struct FileSize {
    /// Pebibytes component of the file size.
    pub pb: u16,
    /// Tebibytes component of the file size.
    pub tb: u16,
    /// Gibibytes component of the file size.
    pub gb: u16,
    /// Mebibytes component of the file size.
    pub mb: u16,
    /// Kibibytes component of the file size.
    pub kb: u16,
    /// Bytes component of the file size.
    pub b: u16,
}

impl FileSize {
    /// The decomposition is reduced: every component below its unit's
    /// capacity, so the total fits back into a `u64`.
    pub open spec fn spec_wf(&self) -> bool {
        &&& self.pb < 16384
        &&& self.tb < 1024
        &&& self.gb < 1024
        &&& self.mb < 1024
        &&& self.kb < 1024
        &&& self.b < 1024
    }

    /// The number of bytes the decomposition stands for.
    pub open spec fn spec_total(&self) -> int {
        self.pb * PB + self.tb * TB + self.gb * GB + self.mb * MB + self.kb * KB + self.b
    }

    /// Splits a byte count into unit components, the largest units
    /// filled first; the components always recombine to the input.
    #[verifier::rlimit(30)]
    pub fn from_total_bytes(total_bytes: u64) -> (r: Self)
        ensures
            r.spec_wf(),
            r.spec_total() == total_bytes,
            r.pb == total_bytes / PB,
            r.tb == (total_bytes % PB) / TB,
            r.gb == ((total_bytes % PB) % TB) / GB,
            r.mb == (((total_bytes % PB) % TB) % GB) / MB,
            r.kb == ((((total_bytes % PB) % TB) % GB) % MB) / KB,
            r.b == ((((total_bytes % PB) % TB) % GB) % MB) % KB,
    {
        let b0 = total_bytes;

        let pb = b0 / PB;
        let b1 = b0 % PB;
        proof {
            assert(b0 == pb * PB + b1) by {
                vstd::arithmetic::div_mod::lemma_fundamental_div_mod(b0 as int, PB as int);
            }
            assert(pb < 16384);
        }

        let tb = b1 / TB;
        let b2 = b1 % TB;
        proof {
            assert(b1 == tb * TB + b2) by {
                vstd::arithmetic::div_mod::lemma_fundamental_div_mod(b1 as int, TB as int);
            }
            assert(tb < 1024);
        }
        let gb = b2 / GB;
        let b3 = b2 % GB;
        proof {
            assert(b2 == gb * GB + b3) by {
                vstd::arithmetic::div_mod::lemma_fundamental_div_mod(b2 as int, GB as int);
            }
            assert(gb < 1024);
        }

        let mb = b3 / MB;
        let b4 = b3 % MB;
        proof {
            assert(b3 == mb * MB + b4) by {
                vstd::arithmetic::div_mod::lemma_fundamental_div_mod(b3 as int, MB as int);
            }
            assert(mb < 1024);
        }
        let kb = b4 / KB;
        let b5 = b4 % KB;
        proof {
            assert(b4 == kb * KB + b5) by {
                vstd::arithmetic::div_mod::lemma_fundamental_div_mod(b4 as int, KB as int);
            }
            assert(kb < 1024);
        }

        Self {
            pb: pb as u16,
            tb: tb as u16,
            gb: gb as u16,
            mb: mb as u16,
            kb: kb as u16,
            b: b5 as u16,
        }
    }

    /// Recombines the components into the total number of bytes.
    pub fn get_total_bytes(&self) -> (r: u64)
        requires
            self.spec_wf(),
        ensures
            r == self.spec_total(),
    {
        let pb: u64 = (self.pb as u64) * PB;
        let tb: u64 = (self.tb as u64) * TB;
        let gb: u64 = (self.gb as u64) * GB;
        let mb: u64 = (self.mb as u64) * MB;
        let kb: u64 = (self.kb as u64) * KB;
        let b: u64 = self.b as u64;
        b + kb + mb + gb + tb + pb
    }
}

} // verus!

//! The kernel's restartable-sequence ABI as plain values.
use vstd::prelude::*;

verus! {

/// The signature that must precede every abort handler.
pub const RSEQ_SIG: u32 = 0x53514552u32;

/// The values the kernel leaves in `cpu_id` while a thread is not registered.
pub enum RseqCpuIdState {
    Uninitialized,
    RegistrationFailed,
}

impl RseqCpuIdState {
    /// The `cpu_id` word of the state: the state's `i32` value read as `u32`.
    pub open spec fn spec_as_u32(self) -> u32 {
        match self {
            RseqCpuIdState::Uninitialized => 0xFFFF_FFFFu32,
            RseqCpuIdState::RegistrationFailed => 0xFFFF_FFFEu32,
        }
    }

    /// The `cpu_id` word of the state: `-1` and `-2` as `u32`.
    pub fn as_u32(self) -> (res: u32)
        ensures
            res == self.spec_as_u32(),
    {
        match self {
            RseqCpuIdState::Uninitialized => 0xFFFF_FFFFu32,
            RseqCpuIdState::RegistrationFailed => 0xFFFF_FFFEu32,
        }
    }
}

/// Flags of the registration system call.
#[derive(Clone, Copy, Debug, PartialEq, Eq, Structural)]
pub enum RseqFlags {
    Unregister,
    SliceExtDefaultOn,
}

impl RseqFlags {
    pub open spec fn spec_bits(self) -> u32 {
        match self {
            RseqFlags::Unregister => 1u32,
            RseqFlags::SliceExtDefaultOn => 2u32,
        }
    }

    /// The flag's bit: `1 << 0` and `1 << 1`.
    pub fn bits(self) -> (res: u32)
        ensures
            res == self.spec_bits(),
    {
        match self {
            RseqFlags::Unregister => 1u32,
            RseqFlags::SliceExtDefaultOn => 2u32,
        }
    }
}

/// Flags of a critical-section descriptor.
#[derive(Clone, Copy, Debug, PartialEq, Eq, Structural)]
pub enum RseqCsFlags {
    NoRestartOnPreempt,
    NoRestartOnSignal,
    NoRestartOnMigrate,
    SliceExtAvailable,
    SliceExtEnabled,
}

impl RseqCsFlags {
    pub open spec fn spec_bits(self) -> u32 {
        match self {
            RseqCsFlags::NoRestartOnPreempt => 1u32,
            RseqCsFlags::NoRestartOnSignal => 2u32,
            RseqCsFlags::NoRestartOnMigrate => 4u32,
            RseqCsFlags::SliceExtAvailable => 16u32,
            RseqCsFlags::SliceExtEnabled => 32u32,
        }
    }

    /// The flag's bit: `1 << 0`, `1 << 1`, `1 << 2`, `1 << 4`, `1 << 5`.
    pub fn bits(self) -> (res: u32)
        ensures
            res == self.spec_bits(),
    {
        match self {
            RseqCsFlags::NoRestartOnPreempt => 1u32,
            RseqCsFlags::NoRestartOnSignal => 2u32,
            RseqCsFlags::NoRestartOnMigrate => 4u32,
            RseqCsFlags::SliceExtAvailable => 16u32,
            RseqCsFlags::SliceExtEnabled => 32u32,
        }
    }
}

/// A set of `RseqFlags`, held as the word the system call takes.
pub struct RseqFlagSet {
    bits: u32,
}

impl RseqFlagSet {
    /// The set holds only bits of `RseqFlags`.
    pub closed spec fn wf(&self) -> bool {
        self.bits < 4
    }

    /// The set holds `flag`.
    pub closed spec fn has(&self, flag: RseqFlags) -> bool {
        match flag {
            RseqFlags::Unregister => self.bits % 2 == 1,
            RseqFlags::SliceExtDefaultOn => self.bits / 2 == 1,
        }
    }

    /// The word of the set.
    pub closed spec fn spec_bits(&self) -> u32 {
        self.bits
    }

    /// The set's word is the sum of the bits of the flags it holds.
    pub proof fn lemma_bits_sum(&self)
        requires
            self.wf(),
        ensures
            self.spec_bits() == (if self.has(RseqFlags::Unregister) { 1u32 } else { 0u32 })
                + (if self.has(RseqFlags::SliceExtDefaultOn) { 2u32 } else { 0u32 }),
    {
    }

    /// The set with no flag.
    pub fn empty() -> (res: RseqFlagSet)
        ensures
            res.wf(),
            !res.has(RseqFlags::Unregister),
            !res.has(RseqFlags::SliceExtDefaultOn),
            res.spec_bits() == 0,
    {
        RseqFlagSet { bits: 0 }
    }

    /// The set that holds `flag` alone.
    pub fn from_flag(flag: RseqFlags) -> (res: RseqFlagSet)
        ensures
            res.wf(),
            forall|f: RseqFlags| res.has(f) <==> f == flag,
            res.spec_bits() == flag.spec_bits(),
    {
        RseqFlagSet { bits: flag.bits() }
    }

    /// Adds `flag` to the set.
    pub fn insert(&mut self, flag: RseqFlags)
        requires
            old(self).wf(),
        ensures
            final(self).wf(),
            forall|f: RseqFlags| final(self).has(f) <==> (old(self).has(f) || f == flag),
    {
        let b = flag.bits();
        if b == 1 {
            if self.bits % 2 == 0 {
                self.bits = self.bits + 1;
            }
        } else {
            if self.bits < 2 {
                self.bits = self.bits + 2;
            }
        }
    }

    /// The set holds `flag`.
    pub fn contains(&self, flag: RseqFlags) -> (res: bool)
        requires
            self.wf(),
        ensures
            res == self.has(flag),
    {
        match flag {
            RseqFlags::Unregister => self.bits % 2 == 1,
            RseqFlags::SliceExtDefaultOn => self.bits / 2 == 1,
        }
    }

    /// The word the system call takes for the set.
    pub fn bits(&self) -> (res: u32)
        ensures
            res == self.spec_bits(),
    {
        self.bits
    }
}

/// The per-thread area that the kernel updates.
pub struct Rseq {
    pub cpu_id_start: u32,
    pub cpu_id: u32,
    pub rseq_cs: u64,
    pub flags: u32,
    pub pad: [u32; 3],
}

impl Rseq {
    /// The area of a thread that has not registered yet.
    pub fn unregistered() -> (res: Rseq)
        ensures
            res.cpu_id_start == 0,
            res.cpu_id == RseqCpuIdState::Uninitialized.spec_as_u32(),
            res.rseq_cs == 0,
            res.flags == 0,
            res.pad@ == seq![0u32, 0u32, 0u32],
    {
        let res = Rseq { cpu_id_start: 0, cpu_id: u32::MAX, rseq_cs: 0, flags: 0, pad: [0u32, 0u32, 0u32] };
        assert(res.pad@ =~= seq![0u32, 0u32, 0u32]);
        res
    }

    /// The kernel has registered the thread: `cpu_id` no longer holds the
    /// uninitialized value.
    pub fn is_registered(&self) -> (res: bool)
        ensures
            res == (self.cpu_id != RseqCpuIdState::Uninitialized.spec_as_u32()),
    {
        self.cpu_id != RseqCpuIdState::Uninitialized.as_u32()
    }
}

/// A critical-section descriptor.
pub struct RseqCs {
    pub version: u32,
    pub flags: u32,
    pub start_ip: u64,
    pub post_commit_offset: u64,
    pub abort_ip: u64,
}

/// Construction of a descriptor and access to its post-commit offset.
pub trait RseqCsExt: Sized {
    fn new(start_ip: u64, post_commit_offset: u64, abort_ip: u64) -> Self;

    fn get_post_commit_mut(&mut self) -> &mut u64;
}

impl RseqCsExt for RseqCs {
    /// The descriptor of version 0, no flags, for the section that starts at
    /// `start_ip`, commits `post_commit_offset` bytes later and aborts to
    /// `abort_ip`.
    fn new(start_ip: u64, post_commit_offset: u64, abort_ip: u64) -> (res: RseqCs)
        ensures
            res == (RseqCs { version: 0, flags: 0, start_ip, post_commit_offset, abort_ip }),
    {
        RseqCs { version: 0, flags: 0, start_ip, post_commit_offset, abort_ip }
    }

    /// The post-commit offset, to read or change in place.
    fn get_post_commit_mut(&mut self) -> (res: &mut u64)
        ensures
            *res == old(self).post_commit_offset,
            *final(self) == (RseqCs { post_commit_offset: *final(res), ..*old(self) }),
    {
        &mut self.post_commit_offset
    }
}

/// The word before the abort handler is the signature the kernel checks.
pub fn signature_matches(found_sig: u32) -> (res: bool)
    ensures
        res == (found_sig == RSEQ_SIG),
{
    found_sig == RSEQ_SIG
}

/// Why registering or unregistering the thread failed.
pub enum RegistrationError {
    /// The system call failed with this error number.
    Failed(i32),
    /// The system call returned a value other than zero.
    Unexpected(usize),
}

/// The outcome of the registration system call: it succeeds exactly when
/// the call returns zero.
pub fn registration_result(res: Result<usize, i32>) -> (out: Result<(), RegistrationError>)
    ensures
        res == Ok::<usize, i32>(0usize) <==> out is Ok,
        res matches Err(e) ==> out == Err::<(), RegistrationError>(RegistrationError::Failed(e)),
        res matches Ok(n) ==> (n != 0 ==> out == Err::<(), RegistrationError>(RegistrationError::Unexpected(n))),
{
    match res {
        Ok(0) => Ok(()),
        Ok(n) => Err(RegistrationError::Unexpected(n)),
        Err(e) => Err(RegistrationError::Failed(e)),
    }
}

} // verus!

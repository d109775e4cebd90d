//! What the machines share: decoding an instruction, executing it, and
//! showing the machine to a debugger. Running one (the loop, the printing,
//! the debugger's input) is left to the program around the library.
use vstd::prelude::*;

verus! {

/// A machine that decodes and executes one instruction at a time.
pub trait Machine {
    type Inst;

    /// What every state of the machine keeps.
    spec fn wf(&self) -> bool;

    /// Whether the cells that decoding at `ip` reads are in memory.
    spec fn decodable(&self, ip: usize) -> bool;

    /// Whether an instruction names only what the machine has.
    spec fn inst_ok(inst: Self::Inst) -> bool;

    /// Whether executing `inst` stays within memory and computes without overflow.
    spec fn executable(&self, inst: Self::Inst) -> bool;

    /// Whether an instruction pointer can be shown.
    spec fn ip_ok(ip: usize) -> bool;

    /// Whether the instruction at `ip` can be decoded.
    fn can_decode(&self, ip: usize) -> (r: bool)
        requires
            self.wf(),
        ensures
            r == self.decodable(ip),
            r ==> Self::ip_ok(ip),
    ;

    /// Decodes the instruction at `ip` and moves `ip` past it.
    fn decode(&self, ip: &mut usize) -> (r: Result<Self::Inst, String>)
        requires
            self.wf(),
            self.decodable(*old(ip)),
        ensures
            Self::ip_ok(*final(ip)),
            r matches Ok(i) ==> Self::inst_ok(i),
    ;

    /// Whether `inst` can be executed.
    fn can_execute(&self, inst: &Self::Inst) -> (r: bool)
        requires
            self.wf(),
            Self::inst_ok(*inst),
        ensures
            r == self.executable(*inst),
    ;

    /// Executes `inst`, appends what it prints to `out`, and says whether the
    /// machine halted; an error (with its message) leaves `ip` as it was.
    fn execute(&mut self, inst: Self::Inst, ip: &mut usize, out: &mut Vec<char>) -> (r: Result<
        bool,
        &'static str,
    >)
        requires
            old(self).wf(),
            Self::inst_ok(inst),
            old(self).executable(inst),
            Self::ip_ok(*old(ip)),
        ensures
            final(self).wf(),
            r is Err ==> *final(ip) == *old(ip),
    ;

    /// What the debugger shows after the instruction at `old_ip` ran.
    fn debug_dump(&self, old_ip: usize) -> String
        requires
            self.wf(),
    ;

    /// How the debugger shows an instruction.
    fn describe(&self, inst: &Self::Inst) -> String
        requires
            Self::inst_ok(*inst),
    ;

    /// How the debugger shows an instruction pointer.
    fn format_ip(&self, ip: usize) -> String
        requires
            Self::ip_ok(ip),
    ;
}

} // verus!

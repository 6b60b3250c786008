//! What running a command, or finding it in the cache, gives.
use crate::input::{self, Input, InputView};
use crate::miss::{CacheMissReason, CacheMissReasonView};
use vstd::prelude::*;

verus! {

/// How a process ended, as the wait status that a Unix system reports. It is zero
/// for a process that exited with code zero, and for no other.
#[derive(Clone, Copy, Debug, PartialEq, Eq, Structural)]
pub struct ExitStatus {
    pub raw: i32,
}

impl ExitStatus {
    /// Whether the process exited with code zero.
    pub fn success(&self) -> (result: bool)
        ensures
            result == (self.raw == 0),
    {
        self.raw == 0
    }
}

impl Default for ExitStatus {
    /// The status of a process that succeeded.
    fn default() -> (result: ExitStatus)
        ensures
            result.raw == 0,
    {
        ExitStatus { raw: 0 }
    }
}

/// The result of a command.
#[derive(Debug)]
pub struct Output {
    /// The status code of the command.
    pub status: ExitStatus,
    /// The data that the process wrote to stdout.
    pub stdout: Vec<u8>,
    /// The data that the process wrote to stderr.
    pub stderr: Vec<u8>,
    /// A list of inputs that the command depends on and their hashes.
    pub inputs: Vec<Input>,
    /// Whether the output was returned from the cache or not.
    pub cache_hit: bool,
    /// If cache was missed, the reason why.
    pub cache_miss_reason: Option<CacheMissReason>,
}

/// The model of an [`Output`].
#[verifier::ext_equal]
pub struct OutputView {
    pub status: ExitStatus,
    pub stdout: Seq<u8>,
    pub stderr: Seq<u8>,
    pub inputs: Seq<InputView>,
    pub cache_hit: bool,
    pub cache_miss_reason: Option<CacheMissReasonView>,
}

/// The model of a reason, if there is one.
pub open spec fn reason_view(reason: Option<CacheMissReason>) -> Option<CacheMissReasonView> {
    match reason {
        Some(reason) => Some(reason@),
        None => None,
    }
}

impl View for Output {
    type V = OutputView;

    open spec fn view(&self) -> OutputView {
        OutputView {
            status: self.status,
            stdout: self.stdout@,
            stderr: self.stderr@,
            inputs: input::views(self.inputs@),
            cache_hit: self.cache_hit,
            cache_miss_reason: reason_view(self.cache_miss_reason),
        }
    }
}

/// The output of a command that succeeded and wrote nothing.
pub open spec fn empty_output() -> OutputView {
    OutputView {
        status: ExitStatus { raw: 0 },
        stdout: Seq::empty(),
        stderr: Seq::empty(),
        inputs: Seq::empty(),
        cache_hit: false,
        cache_miss_reason: None,
    }
}

impl Default for Output {
    /// The output of a command that succeeded and wrote nothing.
    fn default() -> (result: Output)
        ensures
            result@ == empty_output(),
    {
        let result = Output {
            status: ExitStatus { raw: 0 },
            stdout: Vec::new(),
            stderr: Vec::new(),
            inputs: Vec::new(),
            cache_hit: false,
            cache_miss_reason: None,
        };
        assert(result@ =~= empty_output());
        result
    }
}

fn copy_inputs(inputs: &Vec<Input>) -> (result: Vec<Input>)
    ensures
        input::views(result@) == input::views(inputs@),
{
    let mut result: Vec<Input> = Vec::new();
    let mut i: usize = 0;
    while i < inputs.len()
        invariant
            i <= inputs@.len(),
            result@.len() == i,
            forall|j: int| 0 <= j < i ==> (#[trigger] result@[j])@ == inputs@[j]@,
        decreases inputs@.len() - i,
    {
        result.push(inputs[i].clone());
        i += 1;
    }
    assert(input::views(result@) =~= input::views(inputs@));
    result
}

impl Clone for Output {
    fn clone(&self) -> (result: Output)
        ensures
            result@ == self@,
    {
        let cache_miss_reason = match &self.cache_miss_reason {
            Some(reason) => Some(reason.clone()),
            None => None,
        };
        let result = Output {
            status: self.status,
            stdout: self.stdout.clone(),
            stderr: self.stderr.clone(),
            inputs: copy_inputs(&self.inputs),
            cache_hit: self.cache_hit,
            cache_miss_reason,
        };
        assert(result@ =~= self@);
        result
    }
}

} // verus!

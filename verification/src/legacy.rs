use vstd::prelude::*;

use crate::shared::errors::ErrorDetails;
use crate::shared::tensors::ElementType;

verus! {

/// Is a streamed query currently running?
#[derive(Debug)]
pub struct Running(pub bool);

/// Has the running streamed query been asked to stop?
#[derive(Debug)]
pub struct Cancelled(pub bool);

impl Default for Running {
    /// Nothing runs at first.
    fn default() -> (r: Running)
        ensures
            r.0 == false,
    {
        Running(false)
    }
}

impl Default for Cancelled {
    /// Nothing is cancelled at first.
    fn default() -> (r: Cancelled)
        ensures
            r.0 == false,
    {
        Cancelled(false)
    }
}

/// The cooperative cancellation state of a streamed operation, owned by
/// the component that issues it and polled by the task that runs it.
#[derive(Debug, Copy, Clone, PartialEq, Eq, Structural)]
pub enum SessionState {
    Idle,
    Running,
    CancelRequested,
}

impl SessionState {
    /// A fresh session: nothing runs.
    pub fn new() -> (r: SessionState)
        ensures
            r == SessionState::Idle,
    {
        SessionState::Idle
    }

    /// Begin a run; a run already in flight is superseded.
    pub fn start(&mut self)
        ensures
            *final(self) == SessionState::Running,
    {
        *self = SessionState::Running;
    }

    /// Ask a running operation to stop; outside a run this is a no-op.
    pub fn request_cancel(&mut self)
        ensures
            *final(self) == if *old(self) == SessionState::Running {
                SessionState::CancelRequested
            } else {
                *old(self)
            },
    {
        if *self == SessionState::Running {
            *self = SessionState::CancelRequested;
        }
    }

    /// The running task's per-batch check: report whether a cancellation
    /// was requested, consuming the request if so.
    pub fn poll_cancel(&mut self) -> (cancelled: bool)
        ensures
            cancelled == (*old(self) == SessionState::CancelRequested),
            *final(self) == if cancelled {
                SessionState::Idle
            } else {
                *old(self)
            },
    {
        if *self == SessionState::CancelRequested {
            *self = SessionState::Idle;
            true
        } else {
            false
        }
    }

    /// The run came to its end, cancelled or not.
    pub fn finish(&mut self)
        ensures
            *final(self) == SessionState::Idle,
    {
        *self = SessionState::Idle;
    }
}

/// A serializable account of a failure, as the streamed-query commands
/// report it.
#[derive(Debug, Clone)]
pub struct SeriazableError {
    pub error: String,
    pub causes: Vec<String>,
    pub backtrace: String,
}

impl SeriazableError {
    /// Wrap an error chain: its outermost message is the headline, the
    /// whole chain are the causes, the verbose rendering the backtrace.
    pub fn from_details(details: &ErrorDetails) -> (r: SeriazableError)
        requires
            details.chain@.len() >= 1,
        ensures
            r.error@ == details.chain@[0]@,
            r.causes@.len() == details.chain@.len(),
            forall|i: int| 0 <= i < r.causes@.len() ==> r.causes@[i]@ == details.chain@[i]@,
            r.backtrace@ == details.verbose@,
    {
        let n = details.chain.len();
        let mut causes: Vec<String> = Vec::new();
        let mut i: usize = 0;
        while i < n
            invariant
                0 <= i <= n,
                n == details.chain@.len(),
                causes@.len() == i,
                forall|j: int| 0 <= j < i ==> causes@[j]@ == details.chain@[j]@,
            decreases n - i,
        {
            causes.push(details.chain[i].clone());
            i += 1;
        }
        SeriazableError {
            error: details.chain[0].clone(),
            causes,
            backtrace: details.verbose.clone(),
        }
    }
}

/// The shape of a tensor as the frontend sends it.
#[derive(Debug, Clone)]
pub enum MyTensorDimensions {
    Dynamic,
    Fixed(Vec<u32>),
}

/// The element type of a tensor as the frontend sends it.
#[derive(Debug, Copy, Clone, PartialEq, Eq, Structural)]
pub enum MyElementType {
    U8,
    I8,
    U16,
    I16,
    U32,
    I32,
    F32,
    U64,
    I64,
    F64,
    /// A string as UTF-8 encoded bytes.
    Utf8,
}

/// A tensor as the frontend sends and receives it.
#[derive(Debug, Clone)]
pub struct MyTensor {
    pub element_type: MyElementType,
    pub dimensions: Vec<u32>,
    pub buffer: Vec<u8>,
}

/// The frontend element type standing for a runtime element type.
pub open spec fn spec_my_element_type(x: ElementType) -> MyElementType {
    match x {
        ElementType::U8 => MyElementType::U8,
        ElementType::I8 => MyElementType::I8,
        ElementType::U16 => MyElementType::U16,
        ElementType::I16 => MyElementType::I16,
        ElementType::U32 => MyElementType::U32,
        ElementType::I32 => MyElementType::I32,
        ElementType::F32 => MyElementType::F32,
        ElementType::U64 => MyElementType::U64,
        ElementType::I64 => MyElementType::I64,
        ElementType::F64 => MyElementType::F64,
        ElementType::Utf8 => MyElementType::Utf8,
    }
}

/// The runtime element type standing for a frontend element type.
pub open spec fn spec_element_type(x: MyElementType) -> ElementType {
    match x {
        MyElementType::U8 => ElementType::U8,
        MyElementType::I8 => ElementType::I8,
        MyElementType::U16 => ElementType::U16,
        MyElementType::I16 => ElementType::I16,
        MyElementType::U32 => ElementType::U32,
        MyElementType::I32 => ElementType::I32,
        MyElementType::F32 => ElementType::F32,
        MyElementType::U64 => ElementType::U64,
        MyElementType::I64 => ElementType::I64,
        MyElementType::F64 => ElementType::F64,
        MyElementType::Utf8 => ElementType::Utf8,
    }
}

/// Translate a runtime element type for the frontend.
pub fn my_element_type(x: ElementType) -> (r: MyElementType)
    ensures
        r == spec_my_element_type(x),
{
    match x {
        ElementType::U8 => MyElementType::U8,
        ElementType::I8 => MyElementType::I8,
        ElementType::U16 => MyElementType::U16,
        ElementType::I16 => MyElementType::I16,
        ElementType::U32 => MyElementType::U32,
        ElementType::I32 => MyElementType::I32,
        ElementType::F32 => MyElementType::F32,
        ElementType::U64 => MyElementType::U64,
        ElementType::I64 => MyElementType::I64,
        ElementType::F64 => MyElementType::F64,
        ElementType::Utf8 => MyElementType::Utf8,
    }
}

/// Translate a frontend element type for the runtime.
pub fn element_type(x: MyElementType) -> (r: ElementType)
    ensures
        r == spec_element_type(x),
{
    match x {
        MyElementType::U8 => ElementType::U8,
        MyElementType::I8 => ElementType::I8,
        MyElementType::U16 => ElementType::U16,
        MyElementType::I16 => ElementType::I16,
        MyElementType::U32 => ElementType::U32,
        MyElementType::I32 => ElementType::I32,
        MyElementType::F32 => ElementType::F32,
        MyElementType::U64 => ElementType::U64,
        MyElementType::I64 => ElementType::I64,
        MyElementType::F64 => ElementType::F64,
        MyElementType::Utf8 => ElementType::Utf8,
    }
}

} // verus!

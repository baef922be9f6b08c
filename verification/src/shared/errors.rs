use vstd::prelude::*;

/// An error that can never happen: the default state type of a
/// [`SerializableError`].
pub use core::convert::Infallible;

verus! {

/// What the verified core keeps of a dynamic error: the messages of its
/// cause chain, outermost first (never empty for a real error), and a
/// verbose rendering of the whole.
#[derive(Debug, Clone)]
pub struct ErrorDetails {
    pub chain: Vec<String>,
    pub verbose: String,
}

/// A serializable error that any command can return to the frontend:
/// the top-most message, the list of causes behind it, a verbose
/// rendering, and optional domain-specific state of type `E`.
#[derive(Debug)]
pub struct SerializableError<E = Infallible> {
    /// The underlying error's whole cause chain.
    pub error: ErrorDetails,
    pub message: String,
    pub causes: Vec<String>,
    pub verbose: String,
    /// Optional domain-specific state attached to the error.
    pub state: Option<E>,
}

impl SerializableError {
    /// Wrap an error chain: the outermost message becomes the headline,
    /// the rest become the causes, and no state is attached.
    pub fn new(error: ErrorDetails) -> (r: SerializableError<Infallible>)
        requires
            error.chain@.len() >= 1,
        ensures
            r.message@ == error.chain@[0]@,
            r.causes@.len() == error.chain@.len() - 1,
            forall|i: int| 0 <= i < r.causes@.len() ==> r.causes@[i]@ == error.chain@[i + 1]@,
            r.verbose@ == error.verbose@,
            r.state is None,
            r.error == error,
    {
        let message = error.chain[0].clone();
        let n = error.chain.len();
        let mut causes: Vec<String> = Vec::new();
        let mut i: usize = 1;
        while i < n
            invariant
                1 <= i <= n,
                n == error.chain@.len(),
                causes@.len() == i - 1,
                forall|j: int| 0 <= j < causes@.len() ==> causes@[j]@ == error.chain@[j + 1]@,
            decreases n - i,
        {
            causes.push(error.chain[i].clone());
            i += 1;
        }
        let verbose = error.verbose.clone();
        SerializableError { error, message, causes, verbose, state: None }
    }
}

impl<E> SerializableError<E> {
    /// Reinterpret the error under another state type; whatever state
    /// was attached is left behind.
    pub fn downcast<E2>(self) -> (r: SerializableError<E2>)
        ensures
            r.error == self.error,
            r.message == self.message,
            r.causes == self.causes,
            r.verbose == self.verbose,
            r.state is None,
    {
        let SerializableError { error, message, causes, verbose, state: _ } = self;
        SerializableError { error, message, causes, verbose, state: None }
    }

    /// Attach domain-specific state to the error.
    pub fn with_state(self, state: E) -> (r: SerializableError<E>)
        ensures
            r.error == self.error,
            r.message == self.message,
            r.causes == self.causes,
            r.verbose == self.verbose,
            r.state matches Some(s) && s == state,
    {
        let SerializableError { error, message, causes, verbose, state: _ } = self;
        SerializableError { error, message, causes, verbose, state: Some(state) }
    }

    /// The attached state, if any.
    pub fn get_state(&self) -> (r: Option<&E>)
        ensures
            match r {
                Some(s) => self.state matches Some(st) && *s == st,
                None => self.state is None,
            },
    {
        self.state.as_ref()
    }

    /// The TypeScript name of this type, for generated bindings.
    pub fn name() -> (r: String)
        ensures
            r@ == "SerializableError"@,
    {
        String::from_str("SerializableError")
    }

    /// The type is rendered as its own interface, not transparently.
    pub fn transparent() -> (r: bool)
        ensures
            r == false,
    {
        false
    }

    /// The TypeScript declaration of this type, for generated bindings.
    pub fn decl() -> (r: String)
        ensures
            r@
                == "\ninterface SerializableError<E> {\n    /** A human-readable message explaining the top-most error. */\n    message: string,\n    /** A list of errors that resulted in this error */\n    causes: string[],\n    /** A verbose stacktrace of the error. */\n    verbose: string,\n    /** Some optional, domain-specific data that describes this error. */\n    state?: E,\n}"@,
    {
        String::from_str(
            "\ninterface SerializableError<E> {\n    /** A human-readable message explaining the top-most error. */\n    message: string,\n    /** A list of errors that resulted in this error */\n    causes: string[],\n    /** A verbose stacktrace of the error. */\n    verbose: string,\n    /** Some optional, domain-specific data that describes this error. */\n    state?: E,\n}",
        )
    }
}

} // verus!

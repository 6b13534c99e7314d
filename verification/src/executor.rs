//! Routing of graph mutation batches to a persistence sink.
use crate::operations::GraphOperation;
use vstd::prelude::*;

verus! {

/// A sink able to persist batches of graph operations; implemented by
/// storage back ends.
pub trait ExecutionSink<P, E, S> {
    /// Error produced when persistence fails.
    type Error;

    /// Every batch handed to the sink so far, oldest first, for
    /// specifications.
    closed spec fn spec_received(&self) -> Seq<Seq<GraphOperation<P, E, S>>> {
        arbitrary()
    }

    /// The result of the latest batch, for specifications.
    closed spec fn spec_last_result(&self) -> Result<(), Self::Error> {
        arbitrary()
    }

    /// Persists a batch of graph operations: the batch is received once, in
    /// order, and the returned result is recorded as the latest.
    fn execute_batch(&mut self, operations: &[GraphOperation<P, E, S>]) -> (result: Result<(), Self::Error>)
        ensures
            final(self).spec_received() == old(self).spec_received().push(operations@),
            final(self).spec_last_result() == result,
    ;
}

/// Forwards non-empty operation batches to an execution sink.
#[derive(Debug)]
pub struct OperationExecutor<S> {
    sink: S,
}

impl<S> OperationExecutor<S> {
    /// The wrapped sink, for specifications.
    pub closed spec fn spec_sink(&self) -> S {
        self.sink
    }

    /// Wraps a sink.
    pub fn new(sink: S) -> (executor: Self)
        ensures
            executor.spec_sink() == sink,
    {
        OperationExecutor { sink }
    }

    /// Commits an owned batch: an empty batch succeeds without reaching the
    /// sink; any other batch is handed to the sink whole, whose result is
    /// returned.
    pub fn commit<P, E, St, X>(&mut self, operations: Vec<GraphOperation<P, E, St>>) -> (result:
        Result<(), X>) where S: ExecutionSink<P, E, St, Error = X>
        ensures
            operations@.len() == 0 ==> result is Ok && *final(self) == *old(self),
            operations@.len() > 0 ==> {
                &&& final(self).spec_sink().spec_received() == old(self).spec_sink().spec_received().push(operations@)
                &&& result == final(self).spec_sink().spec_last_result()
            },
    {
        if operations.len() == 0 {
            return Ok(());
        }
        self.sink.execute_batch(operations.as_slice())
    }

    /// Commits a borrowed batch, leaving the caller's buffer to be reused:
    /// an empty batch succeeds without reaching the sink.
    pub fn commit_slice<P, E, St, X>(&mut self, operations: &[GraphOperation<P, E, St>]) -> (result:
        Result<(), X>) where S: ExecutionSink<P, E, St, Error = X>
        ensures
            operations@.len() == 0 ==> result is Ok && *final(self) == *old(self),
            operations@.len() > 0 ==> {
                &&& final(self).spec_sink().spec_received() == old(self).spec_sink().spec_received().push(operations@)
                &&& result == final(self).spec_sink().spec_last_result()
            },
    {
        if operations.len() == 0 {
            return Ok(());
        }
        self.sink.execute_batch(operations)
    }

    /// Borrows the wrapped sink.
    pub fn sink(&self) -> (sink: &S)
        ensures
            *sink == self.spec_sink(),
    {
        &self.sink
    }

    /// Mutably borrows the wrapped sink.
    pub fn sink_mut(&mut self) -> (sink: &mut S)
        ensures
            *sink == old(self).spec_sink(),
            final(self).spec_sink() == *final(sink),
    {
        &mut self.sink
    }
}

} // verus!

//! The profiler, as far as the bridge drives it.
//!
//! The profiler keeps one stream of scopes per thread. A [`ScopeWriter`]
//! stands for the stream of the thread that made it and records, as ghost
//! state, the calls made through it.

use crate::text::fits_scope;
use std::marker::PhantomData;
use std::rc::Rc;
use vstd::prelude::*;

verus! {

/// One call to the profiler's stream of the current thread.
pub enum ScopeCall {
    /// A scope was begun with these texts, and the stream answered `offset`.
    Begin { name: Seq<char>, target: Seq<char>, data: Seq<char>, offset: usize },
    /// The scope that had been begun at `offset` was ended.
    End { offset: usize },
}

/// The offsets of the scopes that `calls` began and did not end, oldest first.
/// An end counts where it names the scope begun last among them.
pub open spec fn open_offsets(calls: Seq<ScopeCall>) -> Seq<usize>
    decreases calls.len(),
{
    if calls.len() == 0 {
        Seq::empty()
    } else {
        let before = open_offsets(calls.drop_last());
        match calls.last() {
            ScopeCall::Begin { offset, .. } => before.push(offset),
            ScopeCall::End { offset } => if before.len() > 0 && before.last() == offset {
                before.drop_last()
            } else {
                before
            },
        }
    }
}

/// The current thread's profiler stream. It stays on the thread that made it.
pub struct ScopeWriter {
    calls: Ghost<Seq<ScopeCall>>,
    thread: PhantomData<Rc<()>>,
}

impl ScopeWriter {
    /// The calls made through this writer, oldest first.
    pub closed spec fn calls(&self) -> Seq<ScopeCall> {
        self.calls@
    }

    /// The offsets of the scopes that this writer has open, oldest first.
    pub open spec fn open(&self) -> Seq<usize> {
        open_offsets(self.calls())
    }

    /// A writer through which no call was made yet.
    pub fn new() -> (writer: Self)
        ensures
            writer.calls() == Seq::<ScopeCall>::empty(),
    {
        ScopeWriter { calls: Ghost(Seq::empty()), thread: PhantomData }
    }

    /// `puffin::ThreadProfiler::begin_scope`, on the profiler of the current
    /// thread. The stream cuts each text at 127 bytes and fails where that
    /// splits a character, so such texts are left out. The offset that comes
    /// back is where the stream stands, of which nothing is claimed; the
    /// contract only adds the call to the record. The profiler reads its
    /// clock for the call; on wasm32 its own clock needs puffin's `web`
    /// feature, or the host sets one with `ThreadProfiler::initialize`.
    #[verifier::external_body]
    pub(crate) fn begin(&mut self, name: &str, target: &str, data: &str) -> (offset: usize)
        requires
            fits_scope(name@),
            fits_scope(target@),
            fits_scope(data@),
        ensures
            final(self).calls() == old(self).calls().push(
                ScopeCall::Begin { name: name@, target: target@, data: data@, offset },
            ),
    {
        puffin::ThreadProfiler::call(|profiler| profiler.begin_scope(name, target, data))
    }

    /// `puffin::ThreadProfiler::end_scope`, on the profiler of the current
    /// thread. It writes into the stream at `offset`, which has to lie inside
    /// it: that holds of the scope that this writer began last and has not
    /// ended, as long as nothing else on the thread ends scopes that it did
    /// not begin. When the thread's last open scope ends, the stream is
    /// reported to the global profiler, whose lock the thread must not hold
    /// then. The contract only adds the call to the record.
    #[verifier::external_body]
    pub(crate) fn end(&mut self, offset: usize)
        requires
            old(self).open().len() > 0,
            old(self).open().last() == offset,
        ensures
            final(self).calls() == old(self).calls().push(ScopeCall::End { offset }),
    {
        puffin::ThreadProfiler::call(|profiler| profiler.end_scope(offset))
    }
}

/// `puffin::are_scopes_on` reads the process-wide switch of the profiler.
/// Any thread may turn it at any time, so nothing is claimed of the answer.
pub assume_specification[ puffin::are_scopes_on ]() -> bool;

/// The process-wide switch of the profiler, as far as this holder turns it.
/// It records, as ghost state, the turns made through it.
pub struct ScopeSwitch {
    turns: Ghost<Seq<bool>>,
}

impl ScopeSwitch {
    /// The positions that the switch was turned to through this holder,
    /// oldest first.
    pub closed spec fn turns(&self) -> Seq<bool> {
        self.turns@
    }

    /// A holder through which the switch was not turned yet.
    pub fn new() -> (switch: Self)
        ensures
            switch.turns() == Seq::<bool>::empty(),
    {
        ScopeSwitch { turns: Ghost(Seq::empty()) }
    }

    /// `puffin::set_scopes_on` turns the process-wide switch of the profiler
    /// to `on`. Any thread may turn it again at any time, so nothing is
    /// claimed of what a later reading finds; the contract only adds the turn
    /// to the record.
    #[verifier::external_body]
    pub(crate) fn turn(&mut self, on: bool)
        ensures
            final(self).turns() == old(self).turns().push(on),
    {
        puffin::set_scopes_on(on)
    }
}

/// Marks a new frame for the profiler: what the threads have reported since
/// the last mark becomes one frame, which is handed to the profiler's sinks.
///
/// This is `puffin::GlobalProfiler::new_frame` on the global profiler, whose
/// lock it takes for the call, so it is not for a thread that holds that lock,
/// such as a frame sink. A frame for which no thread has reported a scope is
/// dropped by the profiler. Nothing is claimed of the profiler's state.
#[verifier::external_body]
pub fn new_frame_system() {
    puffin::GlobalProfiler::lock().new_frame();
}

} // verus!

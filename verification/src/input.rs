//! Terminal input as it is read, in chunks that may cut a mouse report in two.

use crate::bytes::same_bytes;
use crate::mouse::{all_reports, parse_all, split_reports_reassemble, MouseEvent};
use vstd::prelude::*;

verus! {

/// What leaves the program whatever the key bindings: Ctrl-Q alone.
pub const QUIT_BYTE: u8 = 0x11;

/// How much of an unfinished mouse report is kept for the next chunk. A real one
/// is far shorter; anything longer is no report and is dropped.
pub const MAX_PENDING_MOUSE_FRAGMENT: usize = 64;

/// Whether `bytes` is the quit byte.
pub fn is_quit(bytes: &[u8]) -> (r: bool)
    ensures
        r == (bytes@ == seq![QUIT_BYTE]),
{
    let quit: [u8; 1] = [QUIT_BYTE];
    assert(quit@ =~= seq![QUIT_BYTE]);
    same_bytes(bytes, &quit)
}

/// What a chunk of input amounts to.
#[derive(Debug, PartialEq, Eq)]
pub enum Input {
    Quit,
    /// Mouse events, to be taken in order, and after them keyboard input.
    Events { mouse: Vec<MouseEvent>, keys: Vec<u8> },
}

/// The start of a mouse report that the last chunk cut off.
#[derive(Debug, PartialEq, Eq)]
pub struct InputBuffer {
    pub pending_mouse: Vec<u8>,
}

/// What is kept of an unfinished report.
pub open spec fn kept(fragment: Seq<u8>) -> Seq<u8> {
    if fragment.len() <= MAX_PENDING_MOUSE_FRAGMENT {
        fragment
    } else {
        Seq::empty()
    }
}

impl InputBuffer {
    /// Whether `after` and `input` are what a chunk leads to.
    pub open spec fn takes(self, chunk: Seq<u8>, after: InputBuffer, input: Input) -> bool {
        let bytes = self.pending_mouse@ + chunk;
        if bytes == seq![QUIT_BYTE] {
            after.pending_mouse@ == Seq::<u8>::empty() && input == Input::Quit
        } else {
            &&& after.pending_mouse@ == kept(all_reports(bytes).incomplete)
            &&& input matches Input::Events { mouse, keys }
            &&& mouse@ == all_reports(bytes).events
            &&& keys@ == all_reports(bytes).leftover
        }
    }

    pub fn new() -> (r: Self)
        ensures
            r.pending_mouse@ == Seq::<u8>::empty(),
    {
        InputBuffer { pending_mouse: Vec::new() }
    }

    /// Take in a chunk of input. A mouse report that the chunk before began is
    /// put together again.
    pub fn feed(&mut self, chunk: &[u8]) -> (r: Input)
        ensures
            old(self).takes(chunk@, *final(self), r),
    {
        let mut bytes: Vec<u8> = Vec::new();
        bytes.append(&mut self.pending_mouse);
        bytes.extend_from_slice(chunk);
        assert(bytes@ =~= old(self).pending_mouse@ + chunk@);
        if is_quit(bytes.as_slice()) {
            assert(self.pending_mouse@ =~= Seq::empty());
            return Input::Quit;
        }
        let (mouse, incomplete, leftover) = parse_all(bytes.as_slice());
        if incomplete.len() <= MAX_PENDING_MOUSE_FRAGMENT {
            self.pending_mouse.extend_from_slice(incomplete);
        }
        assert(self.pending_mouse@ =~= kept(all_reports(bytes@).incomplete));
        let keys = vstd::slice::slice_to_vec(leftover);
        Input::Events { mouse, keys }
    }
}

/// Where the reads fall does not matter to mouse input: two chunks, the first of
/// which holds nothing but reports and at most the start of another, yield
/// together what they would yield as one.
pub proof fn chunks_of_mouse_input_join(
    start: InputBuffer,
    x: Seq<u8>,
    y: Seq<u8>,
    middle: InputBuffer,
    first: Input,
    end: InputBuffer,
    second: Input,
)
    requires
        start.pending_mouse@.len() + x.len() <= usize::MAX,
        start.takes(x, middle, first),
        middle.takes(y, end, second),
        first is Events,
        second is Events,
        all_reports(start.pending_mouse@ + x).leftover.len() == 0,
        all_reports(start.pending_mouse@ + x).incomplete.len() <= MAX_PENDING_MOUSE_FRAGMENT,
    ensures
        ({
            let whole = all_reports(start.pending_mouse@ + (x + y));
            &&& whole.events == first->mouse@ + second->mouse@
            &&& whole.leftover == second->keys@
            &&& kept(whole.incomplete) == end.pending_mouse@
        }),
{
    let a = start.pending_mouse@ + x;
    split_reports_reassemble(a, y);
    assert(a + y =~= start.pending_mouse@ + (x + y));
}

} // verus!

use vstd::prelude::*;

verus! {

/// A byte that may be sent to the shell: printable ASCII, ASCII whitespace
/// (space, tab, line feed, form feed, carriage return) or backspace.
pub open spec fn is_forwarded(b: u8) -> bool {
    (0x21 <= b && b <= 0x7e) || b == 0x20 || b == 0x09 || b == 0x0a || b == 0x0c || b == 0x0d
        || b == 0x08
}

/// The bytes of `s` that may be sent to the shell, in order.
pub open spec fn forwarded(s: Seq<u8>) -> Seq<u8>
    decreases s.len(),
{
    if s.len() == 0 {
        Seq::empty()
    } else if is_forwarded(s.last()) {
        forwarded(s.drop_last()).push(s.last())
    } else {
        forwarded(s.drop_last())
    }
}

/// Keeps the bytes of typed input that may be sent to the shell.
pub fn filter_input(input: &[u8]) -> (r: Vec<u8>)
    ensures
        r@ == forwarded(input@),
{
    let mut r: Vec<u8> = Vec::new();
    let mut i: usize = 0;
    while i < input.len()
        invariant
            i <= input@.len(),
            r@ == forwarded(input@.subrange(0, i as int)),
        decreases input@.len() - i,
    {
        let b = input[i];
        assert(input@.subrange(0, i + 1).drop_last() =~= input@.subrange(0, i as int));
        if (0x21 <= b && b <= 0x7e) || b == 0x20 || b == 0x09 || b == 0x0a || b == 0x0c || b
            == 0x0d || b == 0x08 {
            r.push(b);
        }
        i = i + 1;
    }
    assert(input@.subrange(0, i as int) =~= input@);
    r
}

/// What the writer does with one chunk of queued input.
#[derive(Clone, Copy, Debug, PartialEq, Eq, Structural)]
pub enum InputAction {
    /// Deliver an interrupt signal to the shell instead of writing.
    Interrupt,
    /// Raise the exit flag and stop writing.
    Exit,
    /// Write the chunk to the shell's input as it is, and flush.
    Forward,
}

/// The action for a chunk: a lone 0x03 interrupts, a lone 0x04 ends the session,
/// anything else is forwarded.
pub open spec fn spec_input_action(chunk: Seq<u8>) -> InputAction {
    if chunk == seq![3u8] {
        InputAction::Interrupt
    } else if chunk == seq![4u8] {
        InputAction::Exit
    } else {
        InputAction::Forward
    }
}

pub fn input_action(chunk: &[u8]) -> (r: InputAction)
    ensures
        r == spec_input_action(chunk@),
{
    if chunk.len() == 1 && chunk[0] == 3 {
        assert(chunk@ =~= seq![3u8]);
        InputAction::Interrupt
    } else if chunk.len() == 1 && chunk[0] == 4 {
        assert(chunk@ =~= seq![4u8]);
        InputAction::Exit
    } else {
        proof {
            if chunk@ == seq![3u8] || chunk@ == seq![4u8] {
                assert(chunk@.len() == 1);
                assert(chunk@[0] == chunk[0]);
            }
        }
        InputAction::Forward
    }
}

/// Shell output gathered in arrival order until the next drain.
pub struct OutputBuffer {
    bytes: Vec<u8>,
}

impl View for OutputBuffer {
    type V = Seq<u8>;

    closed spec fn view(&self) -> Seq<u8> {
        self.bytes@
    }
}

impl OutputBuffer {
    pub fn new() -> (r: Self)
        ensures
            r@ == Seq::<u8>::empty(),
    {
        OutputBuffer { bytes: Vec::new() }
    }

    /// Adds a chunk after everything gathered so far.
    pub fn append(&mut self, chunk: &[u8])
        ensures
            final(self)@ == old(self)@ + chunk@,
    {
        let mut i: usize = 0;
        while i < chunk.len()
            invariant
                i <= chunk@.len(),
                self@ == old(self)@ + chunk@.subrange(0, i as int),
            decreases chunk@.len() - i,
        {
            self.bytes.push(chunk[i]);
            i = i + 1;
            assert(self@ =~= old(self)@ + chunk@.subrange(0, i as int));
        }
        assert(chunk@.subrange(0, i as int) =~= chunk@);
    }

    /// Hands out everything gathered so far and empties the buffer.
    pub fn drain(&mut self) -> (r: Vec<u8>)
        ensures
            r@ == old(self)@,
            final(self)@ == Seq::<u8>::empty(),
    {
        let mut out: Vec<u8> = Vec::new();
        std::mem::swap(&mut out, &mut self.bytes);
        out
    }

    pub fn is_empty(&self) -> (r: bool)
        ensures
            r == (self@.len() == 0),
    {
        self.bytes.len() == 0
    }
}

} // verus!
